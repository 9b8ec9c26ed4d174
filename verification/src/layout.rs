//! Draw contexts: nested areas of the viewport, and what the cursor does to them.
//!
//! A [`DrawContext`] is a value. Every layout operation leaves the context it is called on
//! untouched and returns a new one. What the contexts of one frame share, the widget
//! identifier counter and the record that the cursor is over some widget, lives in the
//! [`SharedDrawContext`] that the frame was started from, and is handed to the few
//! operations that read or change it.
use crate::animations::cycles_elapsed;
use crate::animations::Interpolation;
use crate::fixed::lemma_over_at_least_one;
use crate::fixed::lemma_over_at_most_one;
use crate::fixed::lemma_over_one;
use crate::fixed::lemma_plus_zero;
use crate::fixed::lemma_quotient_exact;
use crate::fixed::lemma_quotient_monotone;
use crate::fixed::lemma_times_grows;
use crate::fixed::lemma_times_half;
use crate::fixed::lemma_times_int;
use crate::fixed::lemma_times_monotone;
use crate::fixed::lemma_times_of_negatives;
use crate::fixed::lemma_times_one;
use crate::fixed::lemma_times_shrinks;
use crate::fixed::lemma_times_zero;
use crate::fixed::Fixed;
use crate::fixed::ONE_BITS;
use crate::id::WidgetId;
use crate::matrix::cells_within;
use crate::matrix::lemma_identity_image;
use crate::matrix::Matrix;
use vstd::prelude::*;

verus! {

/// Describes a horizontal alignment.
#[derive(Copy, Clone, Debug, PartialEq, Eq, Structural)]
pub enum HorizontalAlignment {
    /// Align in the middle.
    Center,
    /// Align left.
    Left,
    /// Align right.
    Right,
}

/// Describes a vertical alignment.
#[derive(Copy, Clone, Debug, PartialEq, Eq, Structural)]
pub enum VerticalAlignment {
    /// Align in the middle.
    Center,
    /// Align top.
    Top,
    /// Align bottom.
    Bottom,
}

/// Represents the alignment of a viewport.
#[derive(Copy, Clone, Debug, PartialEq, Eq, Structural)]
pub struct Alignment {
    /// The horizontal alignment.
    pub horizontal: HorizontalAlignment,
    /// The vertical alignment.
    pub vertical: VerticalAlignment,
}

impl Alignment {
    /// Shortcut for `(center, center)`.
    pub fn center() -> (r: Alignment)
        ensures
            r.horizontal == HorizontalAlignment::Center,
            r.vertical == VerticalAlignment::Center,
    {
        Alignment { horizontal: HorizontalAlignment::Center, vertical: VerticalAlignment::Center }
    }

    /// Shortcut for `(center, bottom)`.
    pub fn bottom() -> (r: Alignment)
        ensures
            r.horizontal == HorizontalAlignment::Center,
            r.vertical == VerticalAlignment::Bottom,
    {
        Alignment { horizontal: HorizontalAlignment::Center, vertical: VerticalAlignment::Bottom }
    }

    /// Shortcut for `(center, top)`.
    pub fn top() -> (r: Alignment)
        ensures
            r.horizontal == HorizontalAlignment::Center,
            r.vertical == VerticalAlignment::Top,
    {
        Alignment { horizontal: HorizontalAlignment::Center, vertical: VerticalAlignment::Top }
    }

    /// Shortcut for `(right, center)`.
    pub fn right() -> (r: Alignment)
        ensures
            r.horizontal == HorizontalAlignment::Right,
            r.vertical == VerticalAlignment::Center,
    {
        Alignment { horizontal: HorizontalAlignment::Right, vertical: VerticalAlignment::Center }
    }

    /// Shortcut for `(left, center)`.
    pub fn left() -> (r: Alignment)
        ensures
            r.horizontal == HorizontalAlignment::Left,
            r.vertical == VerticalAlignment::Center,
    {
        Alignment { horizontal: HorizontalAlignment::Left, vertical: VerticalAlignment::Center }
    }

    /// Shortcut for `(left, top)`.
    pub fn top_left() -> (r: Alignment)
        ensures
            r.horizontal == HorizontalAlignment::Left,
            r.vertical == VerticalAlignment::Top,
    {
        Alignment { horizontal: HorizontalAlignment::Left, vertical: VerticalAlignment::Top }
    }

    /// Shortcut for `(right, top)`.
    pub fn top_right() -> (r: Alignment)
        ensures
            r.horizontal == HorizontalAlignment::Right,
            r.vertical == VerticalAlignment::Top,
    {
        Alignment { horizontal: HorizontalAlignment::Right, vertical: VerticalAlignment::Top }
    }

    /// Shortcut for `(right, bottom)`.
    pub fn bottom_right() -> (r: Alignment)
        ensures
            r.horizontal == HorizontalAlignment::Right,
            r.vertical == VerticalAlignment::Bottom,
    {
        Alignment { horizontal: HorizontalAlignment::Right, vertical: VerticalAlignment::Bottom }
    }

    /// Shortcut for `(left, bottom)`.
    pub fn bottom_left() -> (r: Alignment)
        ensures
            r.horizontal == HorizontalAlignment::Left,
            r.vertical == VerticalAlignment::Bottom,
    {
        Alignment { horizontal: HorizontalAlignment::Left, vertical: VerticalAlignment::Bottom }
    }
}

/// Where along the horizontal axis the centre of a box of half-width `scale` goes, in a
/// viewport that reaches from -1 to 1: in the middle, or so that the box touches the left
/// or the right edge.
pub open spec fn spec_horizontal_offset(scale: Fixed, alignment: HorizontalAlignment) -> Fixed {
    match alignment {
        HorizontalAlignment::Center => Fixed::zero(),
        HorizontalAlignment::Left => scale.minus(Fixed::one()),
        HorizontalAlignment::Right => Fixed::one().minus(scale),
    }
}

#[verifier::when_used_as_spec(spec_horizontal_offset)]
fn horizontal_offset(scale: Fixed, alignment: HorizontalAlignment) -> (r: Fixed)
    ensures
        r == spec_horizontal_offset(scale, alignment),
{
    match alignment {
        HorizontalAlignment::Center => Fixed::zero(),
        HorizontalAlignment::Left => scale.minus(Fixed::one()),
        HorizontalAlignment::Right => Fixed::one().minus(scale),
    }
}

/// Where along the vertical axis the centre of a box of half-height `scale` goes, in a
/// viewport that reaches from -1 to 1: in the middle, or so that the box touches the bottom
/// or the top edge.
pub open spec fn spec_vertical_offset(scale: Fixed, alignment: VerticalAlignment) -> Fixed {
    match alignment {
        VerticalAlignment::Center => Fixed::zero(),
        VerticalAlignment::Bottom => scale.minus(Fixed::one()),
        VerticalAlignment::Top => Fixed::one().minus(scale),
    }
}

#[verifier::when_used_as_spec(spec_vertical_offset)]
fn vertical_offset(scale: Fixed, alignment: VerticalAlignment) -> (r: Fixed)
    ensures
        r == spec_vertical_offset(scale, alignment),
{
    match alignment {
        VerticalAlignment::Center => Fixed::zero(),
        VerticalAlignment::Bottom => scale.minus(Fixed::one()),
        VerticalAlignment::Top => Fixed::one().minus(scale),
    }
}

/// The number after `id`; after the largest number the count starts again at zero.
pub open spec fn successor(id: usize) -> usize {
    if id == usize::MAX {
        0
    } else {
        (id + 1) as usize
    }
}

/// Start drawing your UI.
///
/// This function builds a `SharedDrawContext` that can be used to build `DrawContext`s.
/// The first widget identifier that it hands out is 1, and no widget is under the cursor
/// yet.
///
/// The count of widget identifiers starts again with every frame. A widget keeps its
/// identifier from one frame to the next, and with it the state of being the active
/// widget, as long as it reserves its identifier at the same place in the sequence of
/// reservations of each frame, exactly once.
pub fn draw() -> (r: SharedDrawContext)
    ensures
        r.next_id() == 1,
        !r.hovered(),
{
    SharedDrawContext { next_widget_id: 1, cursor_hovered_widget: false }
}

/// A context shared between all draw contexts of one frame.
#[derive(Debug)]
pub struct SharedDrawContext {
    next_widget_id: usize,
    cursor_hovered_widget: bool,
}

impl SharedDrawContext {
    /// The number of the next widget identifier that will be reserved.
    pub closed spec fn next_id(&self) -> usize {
        self.next_widget_id
    }

    /// Whether some widget drawn so far was under the cursor.
    pub closed spec fn hovered(&self) -> bool {
        self.cursor_hovered_widget
    }

    /// Builds the context that covers the whole viewport.
    ///
    /// The cursor coordinates, if any, must be in viewport coordinates: `[-1, -1]`
    /// corresponds to the bottom-left hand corner of the screen, and `[1, 1]` to the
    /// top-right hand corner.
    pub fn draw(
        &self,
        width: Fixed,
        height: Fixed,
        cursor: Option<[Fixed; 2]>,
        cursor_was_pressed: bool,
        cursor_was_released: bool,
    ) -> (r: DrawContext)
        ensures
            r == (DrawContext {
                matrix: Matrix::identity(),
                width,
                height,
                animation: None,
                cursor,
                cursor_was_pressed,
                cursor_was_released,
            }),
    {
        DrawContext {
            matrix: Matrix::identity(),
            width,
            height,
            animation: None,
            cursor,
            cursor_was_pressed,
            cursor_was_released,
        }
    }

    /// Returns true if one of the elements that has been drawn by one of the draw contexts
    /// was under the mouse cursor.
    ///
    /// This function can be used to determine whether the user is hovering some part of the
    /// UI. In other words, if this function returns false, then you know that the user is
    /// hovering what is under the UI.
    ///
    /// When you create the context, this value is initally false. Each widget that you draw
    /// can call `set_cursor_hovered_widget` to pass this value to true.
    pub fn cursor_hovered_widget(&self) -> (r: bool)
        ensures
            r == self.hovered(),
    {
        self.cursor_hovered_widget
    }
}

/// Contains everything required to lay out a widget and to tell what the cursor does to it.
#[derive(Clone, Copy, Debug)]
pub struct DrawContext {
    /// Turns the square from -1 to 1 into the area of the context, in viewport coordinates.
    /// While an animation runs, this is where the animation ends.
    pub matrix: Matrix,
    /// Logical width of the area. Only the ratio of width and height is meaningful.
    pub width: Fixed,
    /// Logical height of the area.
    pub height: Fixed,
    /// If `Some`, contains the base animation. The first value is the matrix of the start
    /// of the animation, and the second value is how far the animation has come, between
    /// zero and one.
    pub animation: Option<(Matrix, Fixed)>,
    /// Position of the cursor between -1 and 1, where -1 is the left or bottom, and 1 is
    /// the right or top of the window.
    ///
    /// This is the position of the cursor in the whole viewport, not in the area of the
    /// context.
    pub cursor: Option<[Fixed; 2]>,
    /// Whether the cursor went from up to down in the current frame.
    pub cursor_was_pressed: bool,
    /// Whether the cursor went from down to up in the current frame.
    pub cursor_was_released: bool,
}

/// A corner of the area of `matrix`: the image of the point `(x, y)`, divided by its last
/// homogeneous coordinate.
pub open spec fn spec_corner(matrix: Matrix, x: Fixed, y: Fixed) -> (Fixed, Fixed) {
    let image = matrix.image(x, y, Fixed::one());
    (image[0].over(image[2]), image[1].over(image[2]))
}

#[verifier::when_used_as_spec(spec_corner)]
fn corner(matrix: Matrix, x: Fixed, y: Fixed) -> (r: (Fixed, Fixed))
    ensures
        r == spec_corner(matrix, x, y),
{
    let image = matrix.apply([x, y, Fixed::one()]);
    (image[0].over(image[2]), image[1].over(image[2]))
}

/// Whether `point` is on the inner side of the edge that runs from `from` to `to`: the dot
/// product of `point - from` and `to - from` is not negative.
pub open spec fn spec_inside_edge(point: (Fixed, Fixed), from: (Fixed, Fixed), to: (Fixed, Fixed))
    -> bool {
    point.0.minus(from.0).times(to.0.minus(from.0)).plus(
        point.1.minus(from.1).times(to.1.minus(from.1)),
    ).bits >= 0
}

#[verifier::when_used_as_spec(spec_inside_edge)]
fn inside_edge(point: (Fixed, Fixed), from: (Fixed, Fixed), to: (Fixed, Fixed)) -> (r: bool)
    ensures
        r == spec_inside_edge(point, from, to),
{
    point.0.minus(from.0).times(to.0.minus(from.0)).plus(
        point.1.minus(from.1).times(to.1.minus(from.1)),
    ).bits >= 0
}

/// Whether `point` lies in the area of `matrix`: on the inner side of each of the four
/// edges, taken in the order top, right, bottom, left.
pub open spec fn covers(matrix: Matrix, point: (Fixed, Fixed)) -> bool {
    let top_left = spec_corner(matrix, Fixed::one().negated(), Fixed::one());
    let top_right = spec_corner(matrix, Fixed::one(), Fixed::one());
    let bot_left = spec_corner(matrix, Fixed::one().negated(), Fixed::one().negated());
    let bot_right = spec_corner(matrix, Fixed::one(), Fixed::one().negated());
    &&& spec_inside_edge(point, top_left, top_right)
    &&& spec_inside_edge(point, top_right, bot_right)
    &&& spec_inside_edge(point, bot_right, bot_left)
    &&& spec_inside_edge(point, bot_left, top_left)
}

/// The position of `point` in the coordinates of the area of `matrix`, if the matrix can
/// be inverted and the position is within the area.
pub open spec fn local_position(matrix: Matrix, point: (Fixed, Fixed)) -> Option<(Fixed, Fixed)> {
    if matrix.determinant() == Fixed::zero() {
        None
    } else {
        let image = matrix.inverse().image(point.0, point.1, Fixed::one());
        let x = image[0].over(image[2]);
        let y = image[1].over(image[2]);
        if x.bits < -ONE_BITS || x.bits > ONE_BITS || y.bits < -ONE_BITS || y.bits > ONE_BITS {
            None
        } else {
            Some((x, y))
        }
    }
}

impl DrawContext {
    /// The context with the same cursor and animation state and another area.
    pub open spec fn with_area(self, matrix: Matrix, width: Fixed, height: Fixed) -> DrawContext {
        DrawContext { matrix, width, height, ..self }
    }

    /// The matrix of the area that lies in the area of `self`, shrunk by `(w, h)` and then
    /// moved by `(x, y)`.
    pub open spec fn placed(self, x: Fixed, y: Fixed, w: Fixed, h: Fixed) -> Matrix {
        self.matrix.compose(Matrix::translate(x, y)).compose(Matrix::scale_wh(w, h))
    }

    fn place(&self, x: Fixed, y: Fixed, w: Fixed, h: Fixed, width: Fixed, height: Fixed) -> (r:
        DrawContext)
        ensures
            r == self.with_area(self.placed(x, y, w, h), width, height),
    {
        DrawContext {
            matrix: self.matrix.compose(Matrix::translate(x, y)).compose(Matrix::scale_wh(w, h)),
            width,
            height,
            animation: self.animation,
            cursor: self.cursor,
            cursor_was_pressed: self.cursor_was_pressed,
            cursor_was_released: self.cursor_was_released,
        }
    }

    pub open spec fn spec_matrix(&self) -> Matrix {
        match self.animation {
            Some((start, factor)) => start.blend(self.matrix, factor),
            None => self.matrix,
        }
    }

    /// Returns a matrix that turns a fullscreen rectangle into a rectangle that covers only
    /// the context's area.
    ///
    /// While an animation runs, each cell of the result lies between the cell of the
    /// matrix at which the animation started and the cell of the matrix of the context, as
    /// far along as the animation has come.
    #[verifier::when_used_as_spec(spec_matrix)]
    pub fn matrix(&self) -> (r: Matrix)
        ensures
            r == self.spec_matrix(),
    {
        match self.animation {
            Some((start, factor)) => start.blend(self.matrix, factor),
            None => self.matrix,
        }
    }

    /// Returns true if the cursor went from up to down in the current frame.
    ///
    /// This is the value that was passed when constructing the context.
    pub fn cursor_was_pressed(&self) -> (r: bool)
        ensures
            r == self.cursor_was_pressed,
    {
        self.cursor_was_pressed
    }

    /// Returns true if the cursor went from down to up in the current frame.
    ///
    /// This is the value that was passed when constructing the context.
    pub fn cursor_was_released(&self) -> (r: bool)
        ensures
            r == self.cursor_was_released,
    {
        self.cursor_was_released
    }

    /// Returns true if one of the elements that has been drawn is under the mouse cursor.
    ///
    /// When you create the context, this value is initally false. Each widget that you draw
    /// can call `set_cursor_hovered_widget` to pass this value to true.
    pub fn cursor_hovered_widget(&self, shared: &SharedDrawContext) -> (r: bool)
        ensures
            r == shared.hovered(),
    {
        shared.cursor_hovered_widget
    }

    /// Signals the context that the cursor is currently hovering it. This can be later
    /// retreived with `cursor_hovered_widget()`.
    pub fn set_cursor_hovered_widget(&self, shared: &mut SharedDrawContext)
        ensures
            final(shared).hovered(),
            final(shared).next_id() == old(shared).next_id(),
    {
        shared.cursor_hovered_widget = true;
    }

    /// Reserves a new ID for a widget. Calling this function multiple times always returns
    /// a different id, until the counter has run through every number.
    pub fn reserve_widget_id(&self, shared: &mut SharedDrawContext) -> (r: WidgetId)
        ensures
            r == WidgetId(old(shared).next_id()),
            final(shared).next_id() == successor(old(shared).next_id()),
            final(shared).hovered() == old(shared).hovered(),
    {
        let id: usize = shared.next_widget_id;
        shared.next_widget_id = if id == usize::MAX {
            0
        } else {
            id + 1
        };
        WidgetId(id)
    }

    pub open spec fn spec_is_cursor_hovering(&self) -> bool {
        match self.cursor {
            Some(cursor) => covers(self.matrix(), (cursor[0], cursor[1])),
            None => false,
        }
    }

    /// Returns true if the cursor is currently hovering this part of the viewport.
    ///
    /// The four corners of the area are taken to viewport coordinates, and the cursor must
    /// be on the inner side of each of the four edges. A cursor on an edge is hovering.
    #[verifier::when_used_as_spec(spec_is_cursor_hovering)]
    pub fn is_cursor_hovering(&self) -> (r: bool)
        ensures
            r == self.spec_is_cursor_hovering(),
    {
        match self.cursor {
            Some(cursor) => {
                let matrix = self.matrix();
                let point = (cursor[0], cursor[1]);
                let top_left = corner(matrix, Fixed::one().negated(), Fixed::one());
                let top_right = corner(matrix, Fixed::one(), Fixed::one());
                let bot_left = corner(matrix, Fixed::one().negated(), Fixed::one().negated());
                let bot_right = corner(matrix, Fixed::one(), Fixed::one().negated());
                if !inside_edge(point, top_left, top_right) {
                    return false;
                }
                if !inside_edge(point, top_right, bot_right) {
                    return false;
                }
                if !inside_edge(point, bot_right, bot_left) {
                    return false;
                }
                if !inside_edge(point, bot_left, top_left) {
                    return false;
                }
                true
            },
            None => false,
        }
    }

    /// If the cursor is hovering the context, returns the coordinates of the cursor within
    /// the context.
    ///
    /// The result is in viewport-like coordinates. In other words, (-1,-1) is the
    /// bottom-left hand corner and (1,1) is the top-right hand corner. There is no result
    /// without a cursor, when the matrix of the context cannot be inverted, and when the
    /// cursor is outside of the area.
    pub fn cursor_hover_coordinates(&self) -> (r: Option<[Fixed; 2]>)
        ensures
            match self.cursor {
                Some(cursor) => match local_position(self.matrix(), (cursor[0], cursor[1])) {
                    Some(p) => r matches Some(out) && out[0] == p.0 && out[1] == p.1,
                    None => r is None,
                },
                None => r is None,
            },
    {
        let m = match self.matrix().invert() {
            Some(m) => m,
            None => return None,
        };
        let in_pos = match self.cursor {
            Some(p) => p,
            None => return None,
        };
        let image = m.apply([in_pos[0], in_pos[1], Fixed::one()]);
        let x = image[0].over(image[2]);
        let y = image[1].over(image[2]);
        if x.bits < -ONE_BITS || x.bits > ONE_BITS || y.bits < -ONE_BITS || y.bits > ONE_BITS {
            return None;
        }
        Some([x, y])
    }

    pub open spec fn spec_width_per_height(&self) -> Fixed {
        self.width.over(self.height)
    }

    /// Returns the ratio of the width of the surface divided by its height.
    #[verifier::when_used_as_spec(spec_width_per_height)]
    pub fn width_per_height(&self) -> (r: Fixed)
        ensures
            r == self.spec_width_per_height(),
    {
        self.width.over(self.height)
    }

    pub open spec fn spec_margin(&self, top: Fixed, right: Fixed, bottom: Fixed, left: Fixed)
        -> DrawContext {
        self.with_area(
            self.placed(
                left.minus(right),
                bottom.minus(top),
                Fixed::one().minus(right).minus(left),
                Fixed::one().minus(top).minus(bottom),
            ),
            self.width.times(Fixed::one().minus(left).minus(right)),
            self.height.times(Fixed::one().minus(top).minus(bottom)),
        )
    }

    /// Builds a new draw context containing a subarea of the current context, but with a
    /// margin.
    ///
    /// The margin is expressed in percentage of the surface (between 0 and 1).
    #[verifier::when_used_as_spec(spec_margin)]
    pub fn margin(&self, top: Fixed, right: Fixed, bottom: Fixed, left: Fixed) -> (r: DrawContext)
        ensures
            r == self.spec_margin(top, right, bottom, left),
    {
        self.place(
            left.minus(right),
            bottom.minus(top),
            Fixed::one().minus(right).minus(left),
            Fixed::one().minus(top).minus(bottom),
            self.width.times(Fixed::one().minus(left).minus(right)),
            self.height.times(Fixed::one().minus(top).minus(bottom)),
        )
    }

    /// The larger of `ratio` and one.
    pub open spec fn at_least_one(ratio: Fixed) -> Fixed {
        if ratio.bits < ONE_BITS {
            Fixed::one()
        } else {
            ratio
        }
    }

    pub open spec fn spec_uniform_margin(
        &self,
        top: Fixed,
        right: Fixed,
        bottom: Fixed,
        left: Fixed,
    ) -> DrawContext {
        let wph = Self::at_least_one(self.width_per_height());
        let hpw = Self::at_least_one(Fixed::one().over(self.width_per_height()));
        self.margin(top.over(hpw), right.over(wph), bottom.over(hpw), left.over(wph))
    }

    /// Builds a new draw context containing a subarea of the current context, but with a
    /// margin.
    ///
    /// If the width of the surface is inferior to the height then the margin is expressed
    /// as a percentage of the width, and vice versa.
    ///
    /// This guarantees that the size in pixels of the margin is the same if you pass the
    /// same values.
    #[verifier::when_used_as_spec(spec_uniform_margin)]
    pub fn uniform_margin(&self, top: Fixed, right: Fixed, bottom: Fixed, left: Fixed) -> (r:
        DrawContext)
        ensures
            r == self.spec_uniform_margin(top, right, bottom, left),
    {
        let wph = self.width_per_height();
        let wph = if wph.bits < ONE_BITS {
            Fixed::one()
        } else {
            wph
        };
        let hpw = Fixed::one().over(self.width_per_height());
        let hpw = if hpw.bits < ONE_BITS {
            Fixed::one()
        } else {
            hpw
        };
        self.margin(top.over(hpw), right.over(wph), bottom.over(hpw), left.over(wph))
    }

    pub open spec fn spec_vertical_rescale(&self, scale: Fixed, alignment: VerticalAlignment)
        -> DrawContext {
        self.with_area(
            self.placed(Fixed::zero(), spec_vertical_offset(scale, alignment), Fixed::one(), scale),
            self.width,
            self.height.times(scale),
        )
    }

    /// Builds a new draw context containing a subarea of the current context. The width of
    /// the new viewport will be the same as the current one, but its new height will be
    /// multipled by the value of `scale`.
    ///
    /// The alignment is used to determine the position of the new viewport inside the old
    /// one.
    pub fn vertical_rescale(&self, scale: Fixed, alignment: &VerticalAlignment) -> (r: DrawContext)
        ensures
            r == self.spec_vertical_rescale(scale, *alignment),
    {
        let y = vertical_offset(scale, *alignment);
        self.place(Fixed::zero(), y, Fixed::one(), scale, self.width, self.height.times(scale))
    }

    pub open spec fn spec_horizontal_rescale(&self, scale: Fixed, alignment: HorizontalAlignment)
        -> DrawContext {
        self.with_area(
            self.placed(spec_horizontal_offset(scale, alignment), Fixed::zero(), scale, Fixed::one()),
            self.width.times(scale),
            self.height,
        )
    }

    /// Builds a new draw context containing a subarea of the current context. The height of
    /// the new viewport will be the same as the current one, but its new width will be
    /// multipled by the value of `scale`.
    ///
    /// The alignment is used to determine the position of the new viewport inside the old
    /// one.
    pub fn horizontal_rescale(&self, scale: Fixed, alignment: &HorizontalAlignment) -> (r:
        DrawContext)
        ensures
            r == self.spec_horizontal_rescale(scale, *alignment),
    {
        let x = horizontal_offset(scale, *alignment);
        self.place(x, Fixed::zero(), scale, Fixed::one(), self.width.times(scale), self.height)
    }

    pub open spec fn spec_rescale(
        &self,
        width_percent: Fixed,
        height_percent: Fixed,
        alignment: Alignment,
    ) -> DrawContext {
        self.with_area(
            self.placed(
                spec_horizontal_offset(width_percent, alignment.horizontal),
                spec_vertical_offset(height_percent, alignment.vertical),
                width_percent,
                height_percent,
            ),
            self.width.times(width_percent),
            self.height.times(height_percent),
        )
    }

    /// Changes the dimensions of the context.
    ///
    /// The dimensions are a percentage of the current dimensions. For example to divide the
    /// width by two, you need to pass one half.
    ///
    /// The alignment is used to determine the position of the newly-created context
    /// relative to the old one.
    pub fn rescale(&self, width_percent: Fixed, height_percent: Fixed, alignment: &Alignment) -> (r:
        DrawContext)
        ensures
            r == self.spec_rescale(width_percent, height_percent, *alignment),
    {
        let x = horizontal_offset(width_percent, alignment.horizontal);
        let y = vertical_offset(height_percent, alignment.vertical);
        self.place(
            x,
            y,
            width_percent,
            height_percent,
            self.width.times(width_percent),
            self.height.times(height_percent),
        )
    }

    pub open spec fn spec_enforce_aspect_ratio_downscale(
        &self,
        width_per_height: Fixed,
        alignment: Alignment,
    ) -> DrawContext {
        let current = self.width_per_height();
        if width_per_height.bits > current.bits {
            self.spec_vertical_rescale(current.over(width_per_height), alignment.vertical)
        } else {
            self.spec_horizontal_rescale(width_per_height.over(current), alignment.horizontal)
        }
    }

    /// Modifies the layout so that the given width per height ratio is respected. The size
    /// of the new viewport will always been equal or small to the existing viewport.
    ///
    /// If the viewport needs to be reduced horizontally, then the horizontal alignment is
    /// used. If it needs to be reduced vertically, then the vertical alignment is used.
    pub fn enforce_aspect_ratio_downscale(&self, width_per_height: Fixed, alignment: &Alignment)
        -> (r: DrawContext)
        requires
            self.width.bits > 0,
            self.height.bits > 0,
            width_per_height.bits > 0,
        ensures
            r == self.spec_enforce_aspect_ratio_downscale(width_per_height, *alignment),
            0 <= r.width.bits <= self.width.bits,
            0 <= r.height.bits <= self.height.bits,
            r.width == self.width || r.height == self.height,
    {
        let current = self.width_per_height();
        proof {
            lemma_ratio_not_negative(self.width, self.height);
        }
        if width_per_height.bits > current.bits {
            let scale = current.over(width_per_height);
            proof {
                lemma_over_at_most_one(current, width_per_height);
                lemma_times_shrinks(self.height, scale);
            }
            self.vertical_rescale(scale, &alignment.vertical)
        } else {
            let scale = width_per_height.over(current);
            proof {
                lemma_over_at_most_one(width_per_height, current);
                lemma_times_shrinks(self.width, scale);
            }
            self.horizontal_rescale(scale, &alignment.horizontal)
        }
    }

    pub open spec fn spec_enforce_aspect_ratio_upscale(
        &self,
        width_per_height: Fixed,
        alignment: Alignment,
    ) -> DrawContext {
        let current = self.width_per_height();
        if width_per_height.bits > current.bits {
            self.spec_horizontal_rescale(width_per_height.over(current), alignment.horizontal)
        } else {
            self.spec_vertical_rescale(current.over(width_per_height), alignment.vertical)
        }
    }

    /// Modifies the layout so that the given width per height ratio is respected. The size
    /// of the new viewport will always been equal or greater to the existing viewport.
    ///
    /// If the viewport needs to be increased horizontally, then the horizontal alignment is
    /// used. If it needs to be increased vertically, then the vertical alignment is used.
    pub fn enforce_aspect_ratio_upscale(&self, width_per_height: Fixed, alignment: &Alignment) -> (r:
        DrawContext)
        requires
            self.width.bits > 0,
            self.height.bits > 0,
            width_per_height.bits > 0,
        ensures
            r == self.spec_enforce_aspect_ratio_upscale(width_per_height, *alignment),
            self.width.bits <= r.width.bits,
            self.height.bits <= r.height.bits,
            r.width == self.width || r.height == self.height,
    {
        let current = self.width_per_height();
        proof {
            lemma_ratio_not_negative(self.width, self.height);
        }
        if width_per_height.bits > current.bits {
            let scale = width_per_height.over(current);
            proof {
                if current.bits > 0 {
                    lemma_over_at_least_one(width_per_height, current);
                }
                lemma_times_grows(self.width, scale);
            }
            self.horizontal_rescale(scale, &alignment.horizontal)
        } else {
            let scale = current.over(width_per_height);
            proof {
                lemma_over_at_least_one(current, width_per_height);
                lemma_times_grows(self.height, scale);
            }
            self.vertical_rescale(scale, &alignment.vertical)
        }
    }

    pub open spec fn spec_animation_start<I: Interpolation>(
        &self,
        interpolation: I,
        now: u64,
        start_time: u64,
        duration: u64,
    ) -> DrawContext {
        DrawContext {
            animation: Some(
                (
                    self.matrix(),
                    interpolation.progress(cycles_elapsed(now, start_time, duration)).to_fixed(),
                ),
            ),
            ..*self
        }
    }

    /// Starts an animation. The interpolation, the current time, the start time and the
    /// duration are used to calculate at which point of the animation we are.
    ///
    /// At the moment where you call this function, the element must be at its starting
    /// point. After you call this function, you must add further transformations to
    /// represent the destination. Don't forget to call `animation_stop` if you want to add
    /// further transformations.
    ///
    /// You can easily reverse this order (ie. the element is at its destination when you
    /// call the function and will be moved to its source) by reversing the interpolation
    /// with `.reverse()`.
    pub fn animation_start<I>(&self, interpolation: I, now: u64, start_time: u64, duration: u64)
        -> (r: DrawContext) where I: Interpolation
        ensures
            r == self.spec_animation_start(interpolation, now, start_time, duration),
    {
        let progress = interpolation.calculate(now, start_time, duration).to_fixed();
        let current_matrix = self.matrix();
        DrawContext {
            matrix: self.matrix,
            width: self.width,
            height: self.height,
            animation: Some((current_matrix, progress)),
            cursor: self.cursor,
            cursor_was_pressed: self.cursor_was_pressed,
            cursor_was_released: self.cursor_was_released,
        }
    }

    pub open spec fn spec_animation_stop(&self) -> DrawContext {
        DrawContext { matrix: self.matrix(), animation: None, ..*self }
    }

    /// Stops the animation process. The next commands will always be applied.
    #[verifier::when_used_as_spec(spec_animation_stop)]
    pub fn animation_stop(&self) -> (r: DrawContext)
        ensures
            r == self.spec_animation_stop(),
    {
        DrawContext {
            matrix: self.matrix(),
            width: self.width,
            height: self.height,
            animation: None,
            cursor: self.cursor,
            cursor_was_pressed: self.cursor_was_pressed,
            cursor_was_released: self.cursor_was_released,
        }
    }
}

/// The ratio of two positive values is not negative.
pub proof fn lemma_ratio_not_negative(a: Fixed, b: Fixed)
    requires
        a.bits > 0,
        b.bits > 0,
    ensures
        a.over(b).bits >= 0,
{
    lemma_quotient_exact(0, b.bits as int);
    assert(0 <= a.bits * ONE_BITS) by (nonlinear_arith)
        requires
            a.bits > 0,
            ONE_BITS > 0,
    ;
    lemma_quotient_monotone(0, a.bits * ONE_BITS, b.bits as int);
}

/// A margin that is the same on all four sides multiplies the width and the height by the
/// same factor, which leaves their ratio as it is but for rounding.
pub proof fn lemma_symmetric_margin(context: DrawContext, margin: Fixed)
    ensures
        ({
            let factor = Fixed::one().minus(margin).minus(margin);
            let inner = context.margin(margin, margin, margin, margin);
            &&& inner.width == context.width.times(factor)
            &&& inner.height == context.height.times(factor)
            &&& inner.matrix == context.matrix.compose(
                Matrix::translate(Fixed::zero(), Fixed::zero()),
            ).compose(Matrix::scale(factor))
        }),
{
    assert(margin.minus(margin) == Fixed::zero());
}

/// A box that is not larger than its parent and placed by an alignment lies within the
/// parent, along each axis: it reaches from `offset - scale` to `offset + scale`, between
/// -1 and 1.
pub proof fn lemma_offset_inside(
    scale: Fixed,
    horizontal: HorizontalAlignment,
    vertical: VerticalAlignment,
)
    requires
        0 <= scale.bits <= ONE_BITS,
    ensures
        -ONE_BITS <= spec_horizontal_offset(scale, horizontal).bits - scale.bits,
        spec_horizontal_offset(scale, horizontal).bits + scale.bits <= ONE_BITS,
        -ONE_BITS <= spec_vertical_offset(scale, vertical).bits - scale.bits,
        spec_vertical_offset(scale, vertical).bits + scale.bits <= ONE_BITS,
{
}

/// A box that is not smaller than its parent and placed by an alignment covers the
/// parent, along each axis: it reaches from `offset - scale` to `offset + scale`, beyond
/// -1 and 1.
pub proof fn lemma_offset_covers(
    scale: Fixed,
    horizontal: HorizontalAlignment,
    vertical: VerticalAlignment,
)
    requires
        ONE_BITS <= scale.bits <= 0x4000_0000_0000_0000,
    ensures
        spec_horizontal_offset(scale, horizontal).bits - scale.bits <= -ONE_BITS,
        ONE_BITS <= spec_horizontal_offset(scale, horizontal).bits + scale.bits,
        spec_vertical_offset(scale, vertical).bits - scale.bits <= -ONE_BITS,
        ONE_BITS <= spec_vertical_offset(scale, vertical).bits + scale.bits,
{
}

/// The area that keeps a ratio by shrinking is the area of the context, shrunk along one
/// axis by a factor between zero and one; by `lemma_offset_inside` it lies within the
/// area of the context.
pub proof fn lemma_downscale_inside(
    context: DrawContext,
    width_per_height: Fixed,
    alignment: Alignment,
)
    requires
        context.width.bits > 0,
        context.height.bits > 0,
        width_per_height.bits > 0,
    ensures
        ({
            let current = context.width_per_height();
            let scale = if width_per_height.bits > current.bits {
                current.over(width_per_height)
            } else {
                width_per_height.over(current)
            };
            let area = context.spec_enforce_aspect_ratio_downscale(width_per_height, alignment);
            &&& 0 <= scale.bits <= ONE_BITS
            &&& width_per_height.bits > current.bits ==> area.matrix == context.placed(
                Fixed::zero(),
                spec_vertical_offset(scale, alignment.vertical),
                Fixed::one(),
                scale,
            )
            &&& width_per_height.bits <= current.bits ==> area.matrix == context.placed(
                spec_horizontal_offset(scale, alignment.horizontal),
                Fixed::zero(),
                scale,
                Fixed::one(),
            )
        }),
{
    let current = context.width_per_height();
    lemma_ratio_not_negative(context.width, context.height);
    if width_per_height.bits > current.bits {
        lemma_over_at_most_one(current, width_per_height);
    } else {
        lemma_over_at_most_one(width_per_height, current);
    }
}

/// The area that keeps a ratio by growing is the area of the context, grown along one axis
/// by a factor of at least one; by `lemma_offset_covers` it covers the area of the
/// context.
pub proof fn lemma_upscale_covers(
    context: DrawContext,
    width_per_height: Fixed,
    alignment: Alignment,
)
    requires
        context.width.bits > 0,
        context.height.bits > 0,
        width_per_height.bits > 0,
    ensures
        ({
            let current = context.width_per_height();
            let scale = if width_per_height.bits > current.bits {
                width_per_height.over(current)
            } else {
                current.over(width_per_height)
            };
            let area = context.spec_enforce_aspect_ratio_upscale(width_per_height, alignment);
            &&& ONE_BITS <= scale.bits
            &&& width_per_height.bits > current.bits ==> area.matrix == context.placed(
                spec_horizontal_offset(scale, alignment.horizontal),
                Fixed::zero(),
                scale,
                Fixed::one(),
            )
            &&& width_per_height.bits <= current.bits ==> area.matrix == context.placed(
                Fixed::zero(),
                spec_vertical_offset(scale, alignment.vertical),
                Fixed::one(),
                scale,
            )
        }),
{
    let current = context.width_per_height();
    lemma_ratio_not_negative(context.width, context.height);
    if width_per_height.bits > current.bits {
        if current.bits > 0 {
            lemma_over_at_least_one(width_per_height, current);
        }
    } else {
        lemma_over_at_least_one(current, width_per_height);
    }
}

/// The area within margins that are not negative and take no more than the whole of the
/// context lies within the area of the context: it reaches from `2 * left - 1` to
/// `1 - 2 * right` horizontally and from `2 * bottom - 1` to `1 - 2 * top` vertically.
pub proof fn lemma_margin_inside(top: Fixed, right: Fixed, bottom: Fixed, left: Fixed)
    requires
        0 <= top.bits,
        0 <= right.bits,
        0 <= bottom.bits,
        0 <= left.bits,
        left.bits + right.bits <= ONE_BITS,
        top.bits + bottom.bits <= ONE_BITS,
    ensures
        ({
            let x = left.minus(right);
            let y = bottom.minus(top);
            let w = Fixed::one().minus(right).minus(left);
            let h = Fixed::one().minus(top).minus(bottom);
            &&& 0 <= w.bits <= ONE_BITS
            &&& 0 <= h.bits <= ONE_BITS
            &&& x.bits - w.bits == 2 * left.bits - ONE_BITS
            &&& x.bits + w.bits == ONE_BITS - 2 * right.bits
            &&& y.bits - h.bits == 2 * bottom.bits - ONE_BITS
            &&& y.bits + h.bits == ONE_BITS - 2 * top.bits
        }),
{
}

/// An animation that has not begun shows the context where the animation was started, and
/// one that has come to its end shows it where it is now.
///
/// The second holds of matrices without a cell of more than two to the power of 29 in
/// magnitude.
pub proof fn lemma_animation_ends(context: DrawContext, start: Matrix)
    ensures
        (DrawContext { animation: Some((start, Fixed::zero())), ..context }).matrix() == start,
        cells_within(start, 0x2000_0000) && cells_within(context.matrix, 0x2000_0000)
            ==> (DrawContext { animation: Some((start, Fixed::one())), ..context }).matrix()
            == context.matrix,
{
    let target = context.matrix;
    lemma_times_zero(target.m00.minus(start.m00));
    lemma_times_zero(target.m01.minus(start.m01));
    lemma_times_zero(target.m10.minus(start.m10));
    lemma_times_zero(target.m11.minus(start.m11));
    lemma_times_zero(target.m20.minus(start.m20));
    lemma_times_zero(target.m21.minus(start.m21));
    lemma_times_one(target.m00.minus(start.m00));
    lemma_times_one(target.m01.minus(start.m01));
    lemma_times_one(target.m10.minus(start.m10));
    lemma_times_one(target.m11.minus(start.m11));
    lemma_times_one(target.m20.minus(start.m20));
    lemma_times_one(target.m21.minus(start.m21));
}

/// Stopping an animation leaves the context where it is shown, and ends the animation.
pub proof fn lemma_animation_stop(context: DrawContext)
    ensures
        context.animation_stop().matrix() == context.matrix(),
        context.animation_stop().animation is None,
        context.animation_stop().animation_stop() == context.animation_stop(),
{
}

/// The number that is reserved `n` reservations after `id`.
pub open spec fn later(id: usize, n: nat) -> usize
    decreases n,
{
    if n == 0 {
        id
    } else {
        successor(later(id, (n - 1) as nat))
    }
}

/// The count of widget identifiers goes round the numbers of its type.
pub proof fn lemma_later_wraps(id: usize, n: nat)
    ensures
        later(id, n) == (id + n) % (usize::MAX + 1),
    decreases n,
{
    let m = usize::MAX + 1;
    if n == 0 {
        let start = id as int;
        assert(start % m == start) by (nonlinear_arith)
            requires
                0 <= start < m,
        ;
    } else {
        lemma_later_wraps(id, (n - 1) as nat);
        let before = (id + n - 1) % m;
        let q = (id + n - 1) / m;
        assert(id + n - 1 == q * m + before && 0 <= before < m) by (nonlinear_arith)
            requires
                m > 0,
                before == (id + n - 1) % m,
                q == (id + n - 1) / m,
        ;
        if before == m - 1 {
            assert((id + n) % m == 0) by (nonlinear_arith)
                requires
                    id + n == (q + 1) * m,
                    m > 0,
            ;
        } else {
            assert((id + n) % m == before + 1) by (nonlinear_arith)
                requires
                    id + n == q * m + (before + 1),
                    0 <= before + 1 < m,
            ;
        }
    }
}

/// Widget identifiers that are reserved within one frame differ from each other, as long
/// as there are not more of them than numbers of their type.
pub proof fn lemma_reserved_ids_differ(id: usize, i: nat, j: nat)
    requires
        i < j,
        j - i <= usize::MAX,
    ensures
        later(id, i) != later(id, j),
{
    let m = usize::MAX + 1;
    lemma_later_wraps(id, i);
    lemma_later_wraps(id, j);
    let x = id + i;
    let y = id + j;
    if x % m == y % m {
        assert(false) by (nonlinear_arith)
            requires
                x % m == y % m,
                0 < y - x < m,
                m > 0,
        {
            assert(x == (x / m) * m + x % m);
            assert(y == (y / m) * m + y % m);
            assert(y - x == (y / m - x / m) * m);
        }
    }
}

/// The area of the identity matrix is the square from -1 to 1, edges included.
pub proof fn lemma_identity_covers(point: (Fixed, Fixed))
    ensures
        covers(Matrix::identity(), point) <==> (-ONE_BITS <= point.0.bits <= ONE_BITS && -ONE_BITS
            <= point.1.bits <= ONE_BITS),
{
    let one = Fixed::one();
    let minus_one = Fixed::one().negated();
    let id = Matrix::identity();
    lemma_identity_image(minus_one, one, one);
    lemma_identity_image(one, one, one);
    lemma_identity_image(minus_one, minus_one, one);
    lemma_identity_image(one, minus_one, one);
    lemma_over_one(one);
    lemma_over_one(minus_one);
    assert(spec_corner(id, minus_one, one) == (minus_one, one));
    assert(spec_corner(id, one, one) == (one, one));
    assert(spec_corner(id, minus_one, minus_one) == (minus_one, minus_one));
    assert(spec_corner(id, one, minus_one) == (one, minus_one));
    let dx_left = point.0.minus(minus_one);
    let dx_right = point.0.minus(one);
    let dy_top = point.1.minus(one);
    let dy_bottom = point.1.minus(minus_one);
    assert(one.minus(minus_one) == Fixed::from_int(2));
    assert(minus_one.minus(one) == Fixed::from_int(-2i32));
    assert(one.minus(one) == Fixed::zero());
    assert(minus_one.minus(minus_one) == Fixed::zero());
    lemma_times_int(dx_left, 2);
    lemma_times_int(dx_right, -2i32);
    lemma_times_int(dy_top, -2i32);
    lemma_times_int(dy_bottom, 2);
    lemma_times_zero(dx_left);
    lemma_times_zero(dx_right);
    lemma_times_zero(dy_top);
    lemma_times_zero(dy_bottom);
    lemma_plus_zero(dx_left.times(Fixed::from_int(2)));
    lemma_plus_zero(dx_right.times(Fixed::from_int(-2i32)));
    lemma_plus_zero(dy_top.times(Fixed::from_int(-2i32)));
    lemma_plus_zero(dy_bottom.times(Fixed::from_int(2)));
}

/// An area that is scaled and moved, but not turned, covers the rectangle around its
/// centre `(tx, ty)` that reaches `sx` to either side and `sy` up and down, edges
/// included.
///
/// This holds of numbers of at most two to the power of 28 in magnitude.
pub proof fn lemma_rectangle_covers(sx: Fixed, sy: Fixed, tx: Fixed, ty: Fixed, point: (Fixed, Fixed))
    requires
        0 <= sx.bits <= 0x1000_0000_0000_0000,
        0 <= sy.bits <= 0x1000_0000_0000_0000,
        -0x1000_0000_0000_0000 <= tx.bits <= 0x1000_0000_0000_0000,
        -0x1000_0000_0000_0000 <= ty.bits <= 0x1000_0000_0000_0000,
        tx.bits - sx.bits <= point.0.bits <= tx.bits + sx.bits,
        ty.bits - sy.bits <= point.1.bits <= ty.bits + sy.bits,
    ensures
        covers(Matrix::translate(tx, ty).compose(Matrix::scale_wh(sx, sy)), point),
{
    let one = Fixed::one();
    let minus_one = Fixed::one().negated();
    let zero = Fixed::zero();
    let matrix = Matrix::translate(tx, ty).compose(Matrix::scale_wh(sx, sy));
    lemma_times_one(sx);
    lemma_times_one(sy);
    lemma_times_one(tx);
    lemma_times_one(ty);
    lemma_times_zero(sx);
    lemma_times_zero(sy);
    lemma_times_zero(one);
    lemma_times_zero(minus_one);
    lemma_times_zero(zero);
    assert(matrix == (Matrix { m00: sx, m01: zero, m10: zero, m11: sy, m20: tx, m21: ty }));
    assert(minus_one == Fixed::from_int(-1i32));
    lemma_times_int(sx, -1i32);
    lemma_times_int(sy, -1i32);
    let left = Fixed { bits: (tx.bits - sx.bits) as i64 };
    let right = Fixed { bits: (tx.bits + sx.bits) as i64 };
    let bottom = Fixed { bits: (ty.bits - sy.bits) as i64 };
    let top = Fixed { bits: (ty.bits + sy.bits) as i64 };
    lemma_over_one(left);
    lemma_over_one(right);
    lemma_over_one(bottom);
    lemma_over_one(top);
    assert(matrix.image(minus_one, one, one) =~= seq![left, top, one]);
    assert(matrix.image(one, one, one) =~= seq![right, top, one]);
    assert(matrix.image(minus_one, minus_one, one) =~= seq![left, bottom, one]);
    assert(matrix.image(one, minus_one, one) =~= seq![right, bottom, one]);
    assert(spec_corner(matrix, minus_one, one) == (left, top));
    assert(spec_corner(matrix, one, one) == (right, top));
    assert(spec_corner(matrix, minus_one, minus_one) == (left, bottom));
    assert(spec_corner(matrix, one, minus_one) == (right, bottom));
    let from_left = point.0.minus(left);
    let from_right = point.0.minus(right);
    let from_bottom = point.1.minus(bottom);
    let from_top = point.1.minus(top);
    lemma_times_zero(from_left);
    lemma_times_zero(from_right);
    lemma_times_zero(from_bottom);
    lemma_times_zero(from_top);
    // Each edge: the way along the edge is not negative, and nothing is added across it.
    lemma_times_monotone(zero, from_left, zero, right.minus(left));
    lemma_times_of_negatives(from_top, bottom.minus(top));
    lemma_times_of_negatives(from_right, left.minus(right));
    lemma_times_monotone(zero, from_bottom, zero, top.minus(bottom));
    assert(top.minus(top) == zero && bottom.minus(bottom) == zero && left.minus(left) == zero
        && right.minus(right) == zero);
}

/// In the context of the whole viewport the cursor is hovering exactly when it is in the
/// square from -1 to 1, edges included.
pub proof fn lemma_root_hovering(
    width: Fixed,
    height: Fixed,
    cursor: [Fixed; 2],
    pressed: bool,
    released: bool,
)
    ensures
        (DrawContext {
            matrix: Matrix::identity(),
            width,
            height,
            animation: None,
            cursor: Some(cursor),
            cursor_was_pressed: pressed,
            cursor_was_released: released,
        }).is_cursor_hovering() <==> (-ONE_BITS <= cursor[0].bits <= ONE_BITS && -ONE_BITS
            <= cursor[1].bits <= ONE_BITS),
{
    lemma_identity_covers((cursor[0], cursor[1]));
}

/// Sum of the weights, taken from the first to the last.
pub open spec fn total_weight(weights: Seq<Fixed>) -> Fixed
    decreases weights.len(),
{
    if weights.len() == 0 {
        Fixed::zero()
    } else {
        total_weight(weights.drop_last()).plus(weights.last())
    }
}

/// The share of the parent that a chunk of the given weight takes along the axis of the
/// split, when `inverse` is one over the weight of all chunks.
pub open spec fn chunk_share(weight: Fixed, inverse: Fixed) -> Fixed {
    weight.times(inverse)
}

/// How far the middle of a chunk lies from the edge at which the split starts, when the
/// chunks before it weigh `offset` together: `2 * (offset + weight / 2) * inverse`, on a
/// scale on which the parent reaches from 0 to 2.
pub open spec fn chunk_middle(weight: Fixed, offset: Fixed, inverse: Fixed) -> Fixed {
    Fixed::from_int(2).times(offset.plus(weight.times(Fixed::half()))).times(inverse)
}

/// How far the near edge of a chunk lies from the edge at which the split starts.
pub open spec fn chunk_start(weight: Fixed, offset: Fixed, inverse: Fixed) -> Fixed {
    chunk_middle(weight, offset, inverse).minus(chunk_share(weight, inverse))
}

/// How far the far edge of a chunk lies from the edge at which the split starts.
pub open spec fn chunk_end(weight: Fixed, offset: Fixed, inverse: Fixed) -> Fixed {
    chunk_middle(weight, offset, inverse).plus(chunk_share(weight, inverse))
}

/// The part of `parent` that a chunk of the given weight takes, when the chunks before it
/// weigh `offset` together and `inverse` is one over the weight of all chunks.
///
/// The split starts at the top edge of a vertical split, and at the left edge of a
/// horizontal one. Across the split the chunk fills the parent.
pub open spec fn chunk(
    parent: DrawContext,
    weight: Fixed,
    offset: Fixed,
    inverse: Fixed,
    vertical: bool,
) -> DrawContext {
    let share = chunk_share(weight, inverse);
    let middle = chunk_middle(weight, offset, inverse);
    if vertical {
        parent.with_area(
            parent.placed(Fixed::zero(), Fixed::one().minus(middle), Fixed::one(), share),
            parent.width,
            parent.height.times(weight).times(inverse),
        )
    } else {
        parent.with_area(
            parent.placed(middle.minus(Fixed::one()), Fixed::zero(), share, Fixed::one()),
            parent.width.times(weight).times(inverse),
            parent.height,
        )
    }
}

/// A chunk ends where the next one starts, within rounding: the two edges are at most
/// three units of the last place apart.
///
/// This holds of weights that are not negative and weigh at most two to the power of 29
/// together, and of an inverse of at most one.
pub proof fn lemma_chunks_meet(weight: Fixed, next_weight: Fixed, offset: Fixed, inverse: Fixed)
    requires
        0 <= weight.bits,
        0 <= next_weight.bits,
        0 <= offset.bits,
        offset.bits + weight.bits + next_weight.bits <= 0x2000_0000_0000_0000,
        0 <= inverse.bits <= ONE_BITS,
    ensures
        -3 <= chunk_end(weight, offset, inverse).bits - chunk_start(
            next_weight,
            offset.plus(weight),
            inverse,
        ).bits <= 1,
{
    let s: int = 0x1_0000_0000;
    let i = inverse.bits as int;
    let w = weight.bits as int;
    let v = next_weight.bits as int;
    let o = offset.bits as int;
    let x = offset.plus(weight.times(Fixed::half()));
    let y = offset.plus(weight).plus(next_weight.times(Fixed::half()));
    lemma_times_half(weight);
    lemma_times_half(next_weight);
    assert(x.bits == o + w / 2);
    assert(y.bits == o + w + v / 2);
    lemma_times_int(x, 2);
    lemma_times_int(y, 2);
    let mid_product = (2 * x.bits) * i;
    let share_product = w * i;
    let next_mid_product = (2 * y.bits) * i;
    let next_share_product = v * i;
    assert(0 <= mid_product <= 0x4000_0000_0000_0000 * s && 0 <= next_mid_product <= 0x4000_0000_0000_0000 * s && 0 <= share_product
        <= 0x4000_0000_0000_0000 * s && 0 <= next_share_product <= 0x4000_0000_0000_0000 * s)
        by (nonlinear_arith)
        requires
            mid_product == (2 * x.bits) * i,
            share_product == w * i,
            next_mid_product == (2 * y.bits) * i,
            next_share_product == v * i,
            0 <= 2 * x.bits <= 0x4000_0000_0000_0000,
            0 <= 2 * y.bits <= 0x4000_0000_0000_0000,
            0 <= w <= 0x4000_0000_0000_0000,
            0 <= v <= 0x4000_0000_0000_0000,
            0 <= i <= s,
    ;
    let d = 2 * x.bits + w - 2 * y.bits + v;
    assert(-1 <= d <= 1);
    assert(mid_product + share_product - next_mid_product + next_share_product == d * i) by (nonlinear_arith)
        requires
            mid_product == (2 * x.bits) * i,
            share_product == w * i,
            next_mid_product == (2 * y.bits) * i,
            next_share_product == v * i,
            d == 2 * x.bits + w - 2 * y.bits + v,
    ;
    assert(-s <= d * i <= s) by (nonlinear_arith)
        requires
            -1 <= d <= 1,
            0 <= i <= s,
    ;
    let m = chunk_middle(weight, offset, inverse);
    let n = chunk_middle(next_weight, offset.plus(weight), inverse);
    let a = chunk_share(weight, inverse);
    let b = chunk_share(next_weight, inverse);
    assert(m.bits == mid_product / s);
    assert(n.bits == next_mid_product / s);
    assert(a.bits == share_product / s);
    assert(b.bits == next_share_product / s);
}

/// The first chunk of a split starts at the edge at which the split starts, within
/// rounding: at most two units of the last place before it.
///
/// This holds of a weight that is not negative and an inverse between zero and one.
pub proof fn lemma_first_chunk_starts_at_edge(weight: Fixed, inverse: Fixed)
    requires
        0 <= weight.bits,
        0 <= inverse.bits <= ONE_BITS,
    ensures
        -2 <= chunk_start(weight, Fixed::zero(), inverse).bits <= 0,
{
    let s: int = 0x1_0000_0000;
    let i = inverse.bits as int;
    let w = weight.bits as int;
    let x = Fixed::zero().plus(weight.times(Fixed::half()));
    lemma_times_half(weight);
    lemma_times_int(x, 2);
    let mid_product = (2 * x.bits) * i;
    let share_product = w * i;
    assert(0 <= mid_product <= share_product <= w * s) by (nonlinear_arith)
        requires
            mid_product == (2 * x.bits) * i,
            share_product == w * i,
            0 <= 2 * x.bits <= w,
            0 <= i <= s,
    ;
    assert(share_product - mid_product <= s) by (nonlinear_arith)
        requires
            mid_product == (2 * x.bits) * i,
            share_product == w * i,
            w - 2 * x.bits <= 1,
            0 <= i <= s,
    ;
    assert(chunk_middle(weight, Fixed::zero(), inverse).bits == mid_product / s);
    assert(chunk_share(weight, inverse).bits == share_product / s);
}

/// The last chunk of a split ends at the far edge of the parent, within rounding: short
/// of it by at most five units of the last place and two more for each whole unit of
/// weight.
///
/// This holds of weights that are not negative, where `offset` is the weight of the
/// chunks before the last and `inverse` is one over the weight of all chunks, which is at
/// least one and at most two to the power of 29.
pub proof fn lemma_last_chunk_ends_at_edge(weight: Fixed, offset: Fixed, inverse: Fixed)
    requires
        0 <= weight.bits,
        0 <= offset.bits,
        ONE_BITS <= offset.bits + weight.bits <= 0x2000_0000_0000_0000,
        inverse == Fixed::one().over(offset.plus(weight)),
    ensures
        2 * ONE_BITS - 5 - 2 * ((offset.bits + weight.bits) / ONE_BITS as int) <= chunk_end(
            weight,
            offset,
            inverse,
        ).bits <= 2 * ONE_BITS,
{
    let s: int = 0x1_0000_0000;
    let i = inverse.bits as int;
    let w = weight.bits as int;
    let o = offset.bits as int;
    let t = o + w;
    let x = offset.plus(weight.times(Fixed::half()));
    lemma_times_half(weight);
    lemma_times_int(x, 2);
    lemma_over_at_most_one(Fixed::one(), offset.plus(weight));
    assert(ONE_BITS * ONE_BITS == s * s);
    assert(i == (s * s) / t);
    assert(s * s - t < t * i <= s * s) by (nonlinear_arith)
        requires
            t > 0,
            i == (s * s) / t,
    ;
    let mid_product = (2 * x.bits) * i;
    let share_product = w * i;
    assert(0 <= mid_product <= 0x4000_0000_0000_0000 * s && 0 <= share_product <= 0x4000_0000_0000_0000 * s)
        by (nonlinear_arith)
        requires
            mid_product == (2 * x.bits) * i,
            share_product == w * i,
            0 <= 2 * x.bits <= 0x4000_0000_0000_0000,
            0 <= w <= 0x4000_0000_0000_0000,
            0 <= i <= s,
    ;
    let d = 2 * x.bits + w - 2 * t;
    assert(-1 <= d <= 0);
    assert(mid_product + share_product == 2 * (t * i) + d * i) by (nonlinear_arith)
        requires
            mid_product == (2 * x.bits) * i,
            share_product == w * i,
            d == 2 * x.bits + w - 2 * t,
    ;
    assert(-s <= d * i <= 0) by (nonlinear_arith)
        requires
            -1 <= d <= 0,
            0 <= i <= s,
    ;
    assert(chunk_middle(weight, offset, inverse).bits == mid_product / s);
    assert(chunk_share(weight, inverse).bits == share_product / s);
    assert(t <= s * (t / s) + s);
}

/// The weight of the first `k` chunks is not negative and at most the weight of all
/// chunks, where no weight is negative.
pub proof fn lemma_weights_add_up(weights: Seq<Fixed>, k: int)
    requires
        0 <= k <= weights.len(),
        forall|j: int| 0 <= j < weights.len() ==> 0 <= (#[trigger] weights[j]).bits,
    ensures
        0 <= total_weight(weights.take(k)).bits <= total_weight(weights).bits,
    decreases weights.len() - k,
{
    if k == weights.len() {
        assert(weights.take(k) =~= weights);
        lemma_weight_not_negative(weights);
    } else {
        lemma_weights_add_up(weights, k + 1);
        let longer = weights.take(k + 1);
        assert(longer.drop_last() =~= weights.take(k));
        assert(longer.last() == weights[k]);
        lemma_weight_not_negative(weights.take(k));
    }
}

/// Weights that are not negative weigh nothing negative together.
pub proof fn lemma_weight_not_negative(weights: Seq<Fixed>)
    requires
        forall|j: int| 0 <= j < weights.len() ==> 0 <= (#[trigger] weights[j]).bits,
    ensures
        0 <= total_weight(weights).bits,
    decreases weights.len(),
{
    if weights.len() > 0 {
        lemma_weight_not_negative(weights.drop_last());
    }
}

/// The chunks of a split lie one after the other without a gap and without an overlap,
/// within rounding: the far edge of a chunk and the near edge of the next one are at most
/// three units of the last place apart.
///
/// This holds of weights that are not negative and weigh at least one together, and at
/// most two to the power of 29.
pub proof fn lemma_split_gapless(weights: Seq<Fixed>, k: int)
    requires
        0 <= k,
        k + 1 < weights.len(),
        forall|j: int| 0 <= j < weights.len() ==> 0 <= (#[trigger] weights[j]).bits,
        ONE_BITS <= total_weight(weights).bits <= 0x2000_0000_0000_0000,
    ensures
        ({
            let inverse = Fixed::one().over(total_weight(weights));
            let end = chunk_end(weights[k], total_weight(weights.take(k)), inverse);
            let start = chunk_start(weights[k + 1], total_weight(weights.take(k + 1)), inverse);
            -3 <= end.bits - start.bits <= 1
        }),
{
    let total = total_weight(weights);
    let inverse = Fixed::one().over(total);
    let offset = total_weight(weights.take(k));
    let first = weights.take(k + 1);
    let both = weights.take(k + 2);
    assert(first.drop_last() =~= weights.take(k));
    assert(first.last() == weights[k]);
    assert(both.drop_last() =~= first);
    assert(both.last() == weights[k + 1]);
    assert(total_weight(first) == offset.plus(weights[k]));
    assert(total_weight(both) == total_weight(first).plus(weights[k + 1]));
    lemma_weights_add_up(weights, k);
    lemma_weights_add_up(weights, k + 1);
    lemma_weights_add_up(weights, k + 2);
    lemma_over_at_most_one(Fixed::one(), total);
    lemma_chunks_meet(weights[k], weights[k + 1], offset, inverse);
}

/// The `k`-th chunk of `parent` split by `weights`: its share of the parent is its weight
/// over the total weight, and it starts where the chunks before it end.
pub open spec fn split_chunk(parent: DrawContext, weights: Seq<Fixed>, k: int, vertical: bool)
    -> DrawContext
    recommends
        0 <= k < weights.len(),
{
    chunk(
        parent,
        weights[k],
        total_weight(weights.take(k)),
        Fixed::one().over(total_weight(weights)),
        vertical,
    )
}

/// Splits a context in pieces and returns new contexts, one for each call of `next`.
#[derive(Debug)]
pub struct SplitsIter {
    parent: DrawContext,
    weights: Vec<Fixed>,
    total_weight_inverse: Fixed,
    // How many chunks were handed out, and what they weigh together.
    done: (usize, Fixed),
    vertical: bool,
}

impl SplitsIter {
    #[verifier::type_invariant]
    spec fn wf(&self) -> bool {
        &&& self.done.0 <= self.weights@.len()
        &&& self.done.1 == total_weight(self.weights@.take(self.done.0 as int))
        &&& self.total_weight_inverse == Fixed::one().over(total_weight(self.weights@))
    }

    /// The context that is split.
    pub closed spec fn parent(&self) -> DrawContext {
        self.parent
    }

    /// The weights of all chunks, in the order of the chunks.
    pub closed spec fn weights(&self) -> Seq<Fixed> {
        self.weights@
    }

    /// The number of chunks that were handed out.
    pub closed spec fn position(&self) -> nat {
        self.done.0 as nat
    }

    /// Whether the chunks lie one below the other, and not side by side.
    pub closed spec fn vertical(&self) -> bool {
        self.vertical
    }

    /// Returns the next chunk, or `None` after the last one.
    pub fn next(&mut self) -> (r: Option<DrawContext>)
        ensures
            final(self).parent() == old(self).parent(),
            final(self).weights() == old(self).weights(),
            final(self).vertical() == old(self).vertical(),
            old(self).position() <= old(self).weights().len(),
            old(self).position() < old(self).weights().len() ==> r == Some(
                split_chunk(
                    old(self).parent(),
                    old(self).weights(),
                    old(self).position() as int,
                    old(self).vertical(),
                ),
            ) && final(self).position() == old(self).position() + 1,
            old(self).position() == old(self).weights().len() ==> r is None && final(self).position() == old(self).position(),
    {
        proof {
            use_type_invariant(&*self);
        }
        let index: usize = self.done.0;
        if index >= self.weights.len() {
            return None;
        }
        let weight = self.weights[index];
        let offset = self.done.1;
        let inverse = self.total_weight_inverse;
        let share = weight.times(inverse);
        let middle = Fixed::from_int(2).times(offset.plus(weight.times(Fixed::half()))).times(
            inverse,
        );
        let r = if self.vertical {
            self.parent.place(
                Fixed::zero(),
                Fixed::one().minus(middle),
                Fixed::one(),
                share,
                self.parent.width,
                self.parent.height.times(weight).times(inverse),
            )
        } else {
            self.parent.place(
                middle.minus(Fixed::one()),
                Fixed::zero(),
                share,
                Fixed::one(),
                self.parent.width.times(weight).times(inverse),
                self.parent.height,
            )
        };
        proof {
            let taken = self.weights@.take(index + 1);
            assert(taken.drop_last() =~= self.weights@.take(index as int));
            assert(taken.last() == weight);
        }
        self.done = (index + 1, offset.plus(weight));
        Some(r)
    }

    /// The number of chunks that are left, as the lower and the upper bound of it.
    pub fn size_hint(&self) -> (r: (usize, Option<usize>))
        ensures
            self.position() <= self.weights().len(),
            r.0 == self.weights().len() - self.position(),
            r.1 == Some(r.0),
    {
        proof {
            use_type_invariant(self);
        }
        let left: usize = self.weights.len() - self.done.0;
        (left, Some(left))
    }
}

/// Generates the weight one a certain number of times.
#[derive(Debug, Clone)]
pub struct OneGen {
    n: usize,
}

impl OneGen {
    /// How many weights are left.
    pub closed spec fn left(&self) -> usize {
        self.n
    }

    /// A generator of `n` weights.
    pub fn new(n: usize) -> (r: OneGen)
        ensures
            r.left() == n,
    {
        OneGen { n }
    }

    /// Returns the next weight, which is one, or `None` when none is left.
    pub fn next(&mut self) -> (r: Option<Fixed>)
        ensures
            old(self).left() == 0 ==> r is None && final(self).left() == 0,
            old(self).left() > 0 ==> r == Some(Fixed::one()) && final(self).left() == old(self).left() - 1,
    {
        if self.n == 0 {
            return None;
        }
        self.n -= 1;
        Some(Fixed::one())
    }

    /// The number of weights that are left, as the lower and the upper bound of it.
    pub fn size_hint(&self) -> (r: (usize, Option<usize>))
        ensures
            r.0 == self.left(),
            r.1 == Some(self.left()),
    {
        (self.n, Some(self.n))
    }
}

/// `n` times the weight one.
pub open spec fn equal_weights(n: nat) -> Seq<Fixed> {
    Seq::new(n, |i: int| Fixed::one())
}

impl DrawContext {
    /// Splits the viewport in `splits` vertical chunks of equal size, the first at the top.
    pub fn vertical_split(&self, splits: usize) -> (r: SplitsIter)
        requires
            splits != 0,
        ensures
            r.parent() == *self,
            r.weights() == equal_weights(splits as nat),
            r.position() == 0,
            r.vertical(),
    {
        let weights = ones(OneGen::new(splits));
        self.split_weights(weights, true)
    }

    /// Same as `vertical_split`, but attributes a weight to each chunk. For example a chunk
    /// of weight 2 will have twice the size of a chunk of weight 1.
    pub fn vertical_split_weights(&self, weights: Vec<Fixed>) -> (r: SplitsIter)
        requires
            weights@.len() != 0,
        ensures
            r.parent() == *self,
            r.weights() == weights@,
            r.position() == 0,
            r.vertical(),
    {
        self.split_weights(weights, true)
    }

    /// Splits the viewport in `splits` horizontal chunks of equal size, the first at the
    /// left.
    pub fn horizontal_split(&self, splits: usize) -> (r: SplitsIter)
        requires
            splits != 0,
        ensures
            r.parent() == *self,
            r.weights() == equal_weights(splits as nat),
            r.position() == 0,
            !r.vertical(),
    {
        let weights = ones(OneGen::new(splits));
        self.split_weights(weights, false)
    }

    /// Same as `horizontal_split`, but attributes a weight to each chunk. For example a
    /// chunk of weight 2 will have twice the size of a chunk of weight 1.
    pub fn horizontal_split_weights(&self, weights: Vec<Fixed>) -> (r: SplitsIter)
        requires
            weights@.len() != 0,
        ensures
            r.parent() == *self,
            r.weights() == weights@,
            r.position() == 0,
            !r.vertical(),
    {
        self.split_weights(weights, false)
    }

    /// Internal implementation of the split functions.
    fn split_weights(&self, weights: Vec<Fixed>, vertical: bool) -> (r: SplitsIter)
        requires
            weights@.len() != 0,
        ensures
            r.parent() == *self,
            r.weights() == weights@,
            r.position() == 0,
            r.vertical() == vertical,
    {
        let total = sum_weights(&weights);
        let total_weight_inverse = Fixed::one().over(total);
        proof {
            assert(weights@.take(0) =~= Seq::<Fixed>::empty());
        }
        SplitsIter {
            parent: *self,
            weights,
            total_weight_inverse,
            done: (0, Fixed::zero()),
            vertical,
        }
    }
}

/// Collects what a generator of weights gives, in order.
fn ones(generator: OneGen) -> (r: Vec<Fixed>)
    ensures
        r@ == equal_weights(generator.left() as nat),
{
    let mut generator = generator;
    let ghost n = generator.left();
    let mut weights: Vec<Fixed> = Vec::new();
    loop
        invariant
            weights@.len() + generator.left() == n,
            forall|i: int| 0 <= i < weights@.len() ==> weights@[i] == Fixed::one(),
        ensures
            weights@.len() == n,
            forall|i: int| 0 <= i < weights@.len() ==> weights@[i] == Fixed::one(),
        decreases generator.left(),
    {
        match generator.next() {
            Some(weight) => weights.push(weight),
            None => break,
        }
    }
    assert(weights@ =~= equal_weights(n as nat));
    weights
}

fn sum_weights(weights: &Vec<Fixed>) -> (r: Fixed)
    ensures
        r == total_weight(weights@),
{
    let mut total = Fixed::zero();
    let mut i: usize = 0;
    while i < weights.len()
        invariant
            i <= weights@.len(),
            total == total_weight(weights@.take(i as int)),
        decreases weights@.len() - i,
    {
        proof {
            let taken = weights@.take(i + 1);
            assert(taken.drop_last() =~= weights@.take(i as int));
            assert(taken.last() == weights@[i as int]);
        }
        total = total.plus(weights[i]);
        i += 1;
    }
    assert(weights@.take(weights@.len() as int) =~= weights@);
    total
}

} // verus!
