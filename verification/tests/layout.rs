use immi::animations::Linear;
use immi::animations::Reversed;
use immi::draw;
use immi::fixed::Fixed;
use immi::layout::OneGen;
use immi::Alignment;
use immi::DrawContext;
use immi::HorizontalAlignment;
use immi::Matrix;
use immi::VerticalAlignment;
use immi::WidgetId;

fn fx(x: f64) -> Fixed {
    Fixed::from_bits((x * 4294967296.0).round() as i64)
}

fn val(x: Fixed) -> f64 {
    x.bits as f64 / 4294967296.0
}

fn mat(m00: f64, m01: f64, m10: f64, m11: f64, m20: f64, m21: f64) -> Matrix {
    Matrix { m00: fx(m00), m01: fx(m01), m10: fx(m10), m11: fx(m11), m20: fx(m20), m21: fx(m21) }
}

fn root(width: f64, height: f64) -> DrawContext {
    draw().draw(fx(width), fx(height), None, false, false)
}

fn root_with_cursor(x: f64, y: f64) -> DrawContext {
    draw().draw(fx(100.0), fx(100.0), Some([fx(x), fx(y)]), false, false)
}

#[test]
fn the_root_context_covers_the_viewport() {
    let context = draw().draw(fx(1024.0), fx(768.0), Some([fx(0.5), fx(-0.5)]), true, false);
    assert_eq!(context.matrix, Matrix::identity());
    assert_eq!(context.matrix(), Matrix::identity());
    assert_eq!(context.width, fx(1024.0));
    assert_eq!(context.height, fx(768.0));
    assert_eq!(context.animation, None);
    assert_eq!(context.cursor, Some([fx(0.5), fx(-0.5)]));
    assert!(context.cursor_was_pressed());
    assert!(!context.cursor_was_released());
    let other = draw().draw(fx(1.0), fx(1.0), None, false, true);
    assert!(!other.cursor_was_pressed());
    assert!(other.cursor_was_released());
}

#[test]
fn width_per_height_is_the_ratio() {
    assert_eq!(root(1024.0, 768.0).width_per_height().bits, 0x1_5555_5555);
    assert_eq!(root(200.0, 100.0).width_per_height(), fx(2.0));
    assert_eq!(root(100.0, 400.0).width_per_height(), fx(0.25));
}

#[test]
fn margin_shrinks_and_moves() {
    let context = root(1024.0, 768.0);
    let inner = context.margin(fx(0.25), fx(0.125), fx(0.0), fx(0.375));
    assert_eq!(inner.matrix, mat(0.5, 0.0, 0.0, 0.75, 0.25, -0.25));
    assert_eq!(inner.width, fx(512.0));
    assert_eq!(inner.height, fx(576.0));
    // The parent is untouched.
    assert_eq!(context.matrix, Matrix::identity());
    assert_eq!(context.width, fx(1024.0));
}

#[test]
fn margins_nest() {
    let inner = root(64.0, 64.0).margin(fx(0.0), fx(0.0), fx(0.0), fx(0.5)).margin(
        fx(0.5),
        fx(0.0),
        fx(0.0),
        fx(0.0),
    );
    // The right half, then the bottom half of it.
    assert_eq!(inner.matrix, mat(0.5, 0.0, 0.0, 0.5, 0.5, -0.5));
    assert_eq!(inner.width, fx(32.0));
    assert_eq!(inner.height, fx(32.0));
}

#[test]
fn margin_keeps_the_cursor_and_the_edges() {
    let context = draw().draw(fx(10.0), fx(10.0), Some([fx(0.25), fx(0.5)]), true, true);
    let inner = context.margin(fx(0.125), fx(0.125), fx(0.125), fx(0.125));
    assert_eq!(inner.cursor, Some([fx(0.25), fx(0.5)]));
    assert!(inner.cursor_was_pressed());
    assert!(inner.cursor_was_released());
    assert_eq!(inner.animation, None);
}

#[test]
fn symmetric_margins_preserve_the_aspect_ratio() {
    let context = root(1024.0, 768.0);
    let tenth = Fixed::one().over(Fixed::from_int(10));
    let inner = context.margin(tenth, tenth, tenth, tenth);
    assert!((val(inner.width) - 1024.0 * 0.8).abs() < 1e-6);
    assert!((val(inner.height) - 768.0 * 0.8).abs() < 1e-6);
    assert!((val(inner.width_per_height()) - val(context.width_per_height())).abs() < 1e-9);
    assert!((val(inner.width_per_height()) - 1024.0 / 768.0).abs() < 1e-9);
    // On values that need no rounding the ratio is the same to the last bit.
    let eighth = fx(0.125);
    let exact = context.margin(eighth, eighth, eighth, eighth);
    assert_eq!(exact.width, fx(768.0));
    assert_eq!(exact.height, fx(576.0));
    assert_eq!(exact.width_per_height(), context.width_per_height());
}

#[test]
fn uniform_margin_goes_by_the_smaller_side() {
    let wide = root(200.0, 100.0).uniform_margin(fx(0.25), fx(0.25), fx(0.25), fx(0.25));
    assert_eq!(wide.matrix, mat(0.75, 0.0, 0.0, 0.5, 0.0, 0.0));
    assert_eq!(wide.width, fx(150.0));
    assert_eq!(wide.height, fx(50.0));
    // The margin is 25 on each side.
    let tall = root(100.0, 400.0).uniform_margin(fx(0.5), fx(0.0), fx(0.0), fx(0.25));
    assert_eq!(tall.matrix, mat(0.75, 0.0, 0.0, 0.875, 0.25, -0.125));
    assert_eq!(tall.width, fx(75.0));
    assert_eq!(tall.height, fx(350.0));
}

#[test]
fn rescale_places_the_box_by_the_alignment() {
    let context = root(100.0, 200.0);
    let placements = [
        (Alignment::center(), 0.0, 0.0),
        (Alignment::bottom(), 0.0, -0.75),
        (Alignment::top(), 0.0, 0.75),
        (Alignment::right(), 0.5, 0.0),
        (Alignment::left(), -0.5, 0.0),
        (Alignment::top_left(), -0.5, 0.75),
        (Alignment::top_right(), 0.5, 0.75),
        (Alignment::bottom_right(), 0.5, -0.75),
        (Alignment::bottom_left(), -0.5, -0.75),
    ];
    for (alignment, x, y) in placements.iter() {
        let inner = context.rescale(fx(0.5), fx(0.25), alignment);
        assert_eq!(inner.matrix, mat(0.5, 0.0, 0.0, 0.25, *x, *y));
        assert_eq!(inner.width, fx(50.0));
        assert_eq!(inner.height, fx(50.0));
    }
}

#[test]
fn alignment_shortcuts() {
    let pairs = [
        (Alignment::center(), HorizontalAlignment::Center, VerticalAlignment::Center),
        (Alignment::bottom(), HorizontalAlignment::Center, VerticalAlignment::Bottom),
        (Alignment::top(), HorizontalAlignment::Center, VerticalAlignment::Top),
        (Alignment::right(), HorizontalAlignment::Right, VerticalAlignment::Center),
        (Alignment::left(), HorizontalAlignment::Left, VerticalAlignment::Center),
        (Alignment::top_left(), HorizontalAlignment::Left, VerticalAlignment::Top),
        (Alignment::top_right(), HorizontalAlignment::Right, VerticalAlignment::Top),
        (Alignment::bottom_right(), HorizontalAlignment::Right, VerticalAlignment::Bottom),
        (Alignment::bottom_left(), HorizontalAlignment::Left, VerticalAlignment::Bottom),
    ];
    for (alignment, horizontal, vertical) in pairs.iter() {
        assert_eq!(alignment.horizontal, *horizontal);
        assert_eq!(alignment.vertical, *vertical);
    }
}

#[test]
fn rescale_can_grow() {
    let inner = root(100.0, 100.0).rescale(fx(2.0), fx(1.5), &Alignment::top_left());
    assert_eq!(inner.matrix, mat(2.0, 0.0, 0.0, 1.5, 1.0, -0.5));
    assert_eq!(inner.width, fx(200.0));
    assert_eq!(inner.height, fx(150.0));
}

#[test]
fn vertical_rescale_keeps_the_width() {
    let context = root(100.0, 200.0);
    let top = context.vertical_rescale(fx(0.25), &VerticalAlignment::Top);
    assert_eq!(top.matrix, mat(1.0, 0.0, 0.0, 0.25, 0.0, 0.75));
    assert_eq!(top.width, fx(100.0));
    assert_eq!(top.height, fx(50.0));
    let bottom = context.vertical_rescale(fx(0.25), &VerticalAlignment::Bottom);
    assert_eq!(bottom.matrix, mat(1.0, 0.0, 0.0, 0.25, 0.0, -0.75));
    let center = context.vertical_rescale(fx(0.25), &VerticalAlignment::Center);
    assert_eq!(center.matrix, mat(1.0, 0.0, 0.0, 0.25, 0.0, 0.0));
}

#[test]
fn horizontal_rescale_keeps_the_height() {
    let context = root(100.0, 200.0);
    let left = context.horizontal_rescale(fx(0.25), &HorizontalAlignment::Left);
    assert_eq!(left.matrix, mat(0.25, 0.0, 0.0, 1.0, -0.75, 0.0));
    assert_eq!(left.width, fx(25.0));
    assert_eq!(left.height, fx(200.0));
    let right = context.horizontal_rescale(fx(0.25), &HorizontalAlignment::Right);
    assert_eq!(right.matrix, mat(0.25, 0.0, 0.0, 1.0, 0.75, 0.0));
    let center = context.horizontal_rescale(fx(0.25), &HorizontalAlignment::Center);
    assert_eq!(center.matrix, mat(0.25, 0.0, 0.0, 1.0, 0.0, 0.0));
}

#[test]
fn downscale_shrinks_one_axis() {
    let context = root(200.0, 100.0);
    // A square in a wide area: the width shrinks, by the horizontal alignment.
    let square = context.enforce_aspect_ratio_downscale(fx(1.0), &Alignment::top_left());
    assert_eq!(square.matrix, mat(0.5, 0.0, 0.0, 1.0, -0.5, 0.0));
    assert_eq!(square.width, fx(100.0));
    assert_eq!(square.height, fx(100.0));
    // A wider box: the height shrinks, by the vertical alignment.
    let strip = context.enforce_aspect_ratio_downscale(fx(4.0), &Alignment::top_left());
    assert_eq!(strip.matrix, mat(1.0, 0.0, 0.0, 0.5, 0.0, 0.5));
    assert_eq!(strip.width, fx(200.0));
    assert_eq!(strip.height, fx(50.0));
    // The same ratio: nothing changes.
    let same = context.enforce_aspect_ratio_downscale(fx(2.0), &Alignment::top_left());
    assert_eq!(same.matrix, Matrix::identity());
    assert_eq!(same.width, fx(200.0));
    assert_eq!(same.height, fx(100.0));
}

#[test]
fn upscale_grows_one_axis() {
    let context = root(200.0, 100.0);
    // A wider box: the width grows, by the horizontal alignment.
    let strip = context.enforce_aspect_ratio_upscale(fx(4.0), &Alignment::bottom_right());
    assert_eq!(strip.matrix, mat(2.0, 0.0, 0.0, 1.0, -1.0, 0.0));
    assert_eq!(strip.width, fx(400.0));
    assert_eq!(strip.height, fx(100.0));
    // A square: the height grows, by the vertical alignment.
    let square = context.enforce_aspect_ratio_upscale(fx(1.0), &Alignment::bottom_right());
    assert_eq!(square.matrix, mat(1.0, 0.0, 0.0, 2.0, 0.0, 1.0));
    assert_eq!(square.width, fx(200.0));
    assert_eq!(square.height, fx(200.0));
}

#[test]
fn downscale_stays_inside_and_upscale_covers() {
    let sizes = [(1024.0, 768.0), (333.0, 1000.0), (1.0, 1.0), (0.001, 7.0), (5000.0, 3.0)];
    let ratios = [0.01, 0.3, 1.0, 1.3333, 1.7777, 3.0, 250.0];
    for (width, height) in sizes.iter() {
        let context = root(*width, *height);
        for ratio in ratios.iter() {
            let down = context.enforce_aspect_ratio_downscale(fx(*ratio), &Alignment::center());
            assert!(down.width <= context.width);
            assert!(down.height <= context.height);
            assert!(down.width == context.width || down.height == context.height);
            assert!(down.width >= Fixed::zero() && down.height >= Fixed::zero());
            let up = context.enforce_aspect_ratio_upscale(fx(*ratio), &Alignment::center());
            assert!(up.width >= context.width);
            assert!(up.height >= context.height);
            assert!(up.width == context.width || up.height == context.height);
        }
    }
}

#[test]
fn enforced_ratio_is_the_target_within_rounding() {
    let context = root(1024.0, 768.0);
    let down = context.enforce_aspect_ratio_downscale(fx(1.25), &Alignment::center());
    assert!((val(down.width_per_height()) - 1.25).abs() < 1e-8);
    let up = context.enforce_aspect_ratio_upscale(fx(1.25), &Alignment::center());
    assert!((val(up.width_per_height()) - 1.25).abs() < 1e-8);
}

#[test]
fn vertical_split_in_three() {
    let context = root(300.0, 600.0);
    let mut splits = context.vertical_split(3);
    assert_eq!(splits.size_hint(), (3, Some(3)));
    let first = splits.next().unwrap();
    assert_eq!(splits.size_hint(), (2, Some(2)));
    let second = splits.next().unwrap();
    let third = splits.next().unwrap();
    assert_eq!(splits.size_hint(), (0, Some(0)));
    assert!(splits.next().is_none());
    assert!(splits.next().is_none());
    let third_of_one: i64 = 0x5555_5555;
    for chunk in [first, second, third].iter() {
        assert_eq!(chunk.width, fx(300.0));
        assert!((val(chunk.height) - 200.0).abs() < 1e-6);
        assert_eq!(chunk.height.bits, 600 * third_of_one);
        assert_eq!(chunk.matrix.m00, fx(1.0));
        assert_eq!(chunk.matrix.m01, fx(0.0));
        assert_eq!(chunk.matrix.m10, fx(0.0));
        assert_eq!(chunk.matrix.m11.bits, third_of_one);
        assert_eq!(chunk.matrix.m20, fx(0.0));
    }
    // From the top to the bottom.
    assert_eq!(first.matrix.m21.bits, (1i64 << 32) - third_of_one);
    assert_eq!(second.matrix.m21.bits, 1);
    assert_eq!(third.matrix.m21.bits, (1i64 << 32) - 5 * third_of_one);
    // The first chunk starts at the top edge, each chunk ends where the next one starts, and
    // the last one ends at the bottom edge, within rounding.
    let top = |chunk: &DrawContext| chunk.matrix.m21.bits + chunk.matrix.m11.bits;
    let bottom = |chunk: &DrawContext| chunk.matrix.m21.bits - chunk.matrix.m11.bits;
    assert_eq!(top(&first), 1i64 << 32);
    assert_eq!(bottom(&first), top(&second));
    assert_eq!(bottom(&second), top(&third));
    assert!((bottom(&third) + (1i64 << 32)).abs() <= 2);
    let sum = val(first.height) + val(second.height) + val(third.height);
    assert!((sum - 600.0).abs() < 1e-6);
}

#[test]
fn horizontal_split_by_weights() {
    let context = root(400.0, 100.0);
    let mut splits = context.horizontal_split_weights(vec![fx(1.0), fx(2.0), fx(1.0)]);
    let first = splits.next().unwrap();
    let second = splits.next().unwrap();
    let third = splits.next().unwrap();
    assert!(splits.next().is_none());
    assert_eq!(first.matrix, mat(0.25, 0.0, 0.0, 1.0, -0.75, 0.0));
    assert_eq!(second.matrix, mat(0.5, 0.0, 0.0, 1.0, 0.0, 0.0));
    assert_eq!(third.matrix, mat(0.25, 0.0, 0.0, 1.0, 0.75, 0.0));
    assert_eq!(first.width, fx(100.0));
    assert_eq!(second.width, fx(200.0));
    assert_eq!(third.width, fx(100.0));
    assert_eq!(first.height, fx(100.0));
    assert_eq!(second.height, fx(100.0));
    assert_eq!(third.height, fx(100.0));
}

#[test]
fn vertical_split_by_weights() {
    let context = root(100.0, 400.0);
    let mut splits = context.vertical_split_weights(vec![fx(3.0), fx(1.0)]);
    let first = splits.next().unwrap();
    let second = splits.next().unwrap();
    assert!(splits.next().is_none());
    assert_eq!(first.matrix, mat(1.0, 0.0, 0.0, 0.75, 0.0, 0.25));
    assert_eq!(second.matrix, mat(1.0, 0.0, 0.0, 0.25, 0.0, -0.75));
    assert_eq!(first.height, fx(300.0));
    assert_eq!(second.height, fx(100.0));
    assert_eq!(first.width, fx(100.0));
}

#[test]
fn horizontal_split_in_equal_chunks() {
    let context = root(400.0, 100.0).margin(fx(0.0), fx(0.0), fx(0.0), fx(0.5));
    let mut splits = context.horizontal_split(2);
    let first = splits.next().unwrap();
    let second = splits.next().unwrap();
    assert!(splits.next().is_none());
    // The right half of the viewport, split in two.
    assert_eq!(first.matrix, mat(0.25, 0.0, 0.0, 1.0, 0.25, 0.0));
    assert_eq!(second.matrix, mat(0.25, 0.0, 0.0, 1.0, 0.75, 0.0));
    assert_eq!(first.width, fx(100.0));
    assert_eq!(second.width, fx(100.0));
}

#[test]
fn a_split_in_one_is_the_context() {
    let context = root(400.0, 100.0);
    let mut splits = context.vertical_split(1);
    let only = splits.next().unwrap();
    assert!(splits.next().is_none());
    assert_eq!(only.matrix, Matrix::identity());
    assert_eq!(only.width, fx(400.0));
    assert_eq!(only.height, fx(100.0));
}

#[test]
fn chunks_keep_the_cursor() {
    let context = draw().draw(fx(10.0), fx(10.0), Some([fx(0.5), fx(0.5)]), true, false);
    let mut splits = context.horizontal_split(2);
    let first = splits.next().unwrap();
    let second = splits.next().unwrap();
    assert_eq!(first.cursor, Some([fx(0.5), fx(0.5)]));
    assert!(first.cursor_was_pressed());
    assert!(!first.is_cursor_hovering());
    assert!(second.is_cursor_hovering());
}

#[test]
fn one_gen_gives_ones() {
    let mut ones = OneGen::new(2);
    assert_eq!(ones.size_hint(), (2, Some(2)));
    assert_eq!(ones.next(), Some(Fixed::one()));
    assert_eq!(ones.size_hint(), (1, Some(1)));
    assert_eq!(ones.next(), Some(Fixed::one()));
    assert_eq!(ones.next(), None);
    assert_eq!(ones.next(), None);
    assert_eq!(ones.size_hint(), (0, Some(0)));
    assert_eq!(OneGen::new(0).next(), None);
}

#[test]
fn hit_test_of_the_whole_viewport() {
    assert!(root_with_cursor(0.0, 0.0).is_cursor_hovering());
    assert!(!root_with_cursor(2.0, 2.0).is_cursor_hovering());
    assert!(!root_with_cursor(0.0, 2.0).is_cursor_hovering());
    assert!(!root_with_cursor(-2.0, 0.0).is_cursor_hovering());
    assert!(root_with_cursor(0.999, -0.999).is_cursor_hovering());
    assert!(!root(100.0, 100.0).is_cursor_hovering());
}

#[test]
fn hit_test_counts_the_edges_in() {
    for _ in 0..3 {
        assert!(root_with_cursor(1.0, 0.0).is_cursor_hovering());
        assert!(root_with_cursor(-1.0, 0.0).is_cursor_hovering());
        assert!(root_with_cursor(0.0, 1.0).is_cursor_hovering());
        assert!(root_with_cursor(0.0, -1.0).is_cursor_hovering());
        assert!(root_with_cursor(1.0, 1.0).is_cursor_hovering());
        assert!(root_with_cursor(-1.0, -1.0).is_cursor_hovering());
    }
    let just_outside = Fixed::from_bits((1i64 << 32) + 1);
    let context = draw().draw(fx(1.0), fx(1.0), Some([just_outside, fx(0.0)]), false, false);
    assert!(!context.is_cursor_hovering());
    let context = draw().draw(fx(1.0), fx(1.0), Some([fx(0.0), just_outside]), false, false);
    assert!(!context.is_cursor_hovering());
}

#[test]
fn hit_test_of_a_part_of_the_viewport() {
    let quarter = |x: f64, y: f64| {
        root_with_cursor(x, y).rescale(fx(0.5), fx(0.5), &Alignment::top_right())
    };
    assert!(quarter(0.5, 0.5).is_cursor_hovering());
    assert!(quarter(0.1, 0.9).is_cursor_hovering());
    assert!(!quarter(-0.1, 0.5).is_cursor_hovering());
    assert!(!quarter(0.5, -0.1).is_cursor_hovering());
    assert!(!quarter(-0.5, -0.5).is_cursor_hovering());
    assert!(!quarter(1.5, 0.5).is_cursor_hovering());
}

#[test]
fn hit_test_of_a_turned_area() {
    // A square of half the size, turned by an eighth of a turn: a diamond whose corners are
    // at a distance of about 0.707 from the center.
    let diamond = |x: f64, y: f64| {
        let mut context = root_with_cursor(x, y);
        let c = fx(0.35355339);
        context.matrix = Matrix::rotate(c, c);
        context
    };
    assert!(diamond(0.0, 0.0).is_cursor_hovering());
    assert!(diamond(0.69, 0.0).is_cursor_hovering());
    assert!(diamond(0.0, -0.69).is_cursor_hovering());
    assert!(diamond(0.3, 0.3).is_cursor_hovering());
    assert!(!diamond(0.4, 0.4).is_cursor_hovering());
    assert!(!diamond(0.72, 0.0).is_cursor_hovering());
    assert!(!diamond(-0.4, 0.4).is_cursor_hovering());
}

#[test]
fn hover_coordinates_are_local() {
    assert_eq!(
        root_with_cursor(0.25, -0.5).cursor_hover_coordinates(),
        Some([fx(0.25), fx(-0.5)])
    );
    let quarter = |x: f64, y: f64| {
        root_with_cursor(x, y).rescale(fx(0.5), fx(0.5), &Alignment::top_right())
    };
    assert_eq!(quarter(0.75, 0.25).cursor_hover_coordinates(), Some([fx(0.5), fx(-0.5)]));
    assert_eq!(quarter(0.5, 0.5).cursor_hover_coordinates(), Some([fx(0.0), fx(0.0)]));
    assert_eq!(quarter(1.0, 0.0).cursor_hover_coordinates(), Some([fx(1.0), fx(-1.0)]));
    assert_eq!(quarter(-0.25, 0.5).cursor_hover_coordinates(), None);
    assert_eq!(quarter(0.5, 1.25).cursor_hover_coordinates(), None);
}

#[test]
fn hover_coordinates_need_a_cursor_and_an_inverse() {
    assert_eq!(root(100.0, 100.0).cursor_hover_coordinates(), None);
    let flat = root_with_cursor(0.0, 0.0).rescale(fx(0.0), fx(1.0), &Alignment::center());
    assert_eq!(flat.cursor_hover_coordinates(), None);
    let gone = root_with_cursor(0.0, 0.0).rescale(fx(0.0), fx(0.0), &Alignment::center());
    assert_eq!(gone.cursor_hover_coordinates(), None);
}

#[test]
fn animation_blends_from_the_start_matrix() {
    let context = root_with_cursor(0.8, 0.0);
    // A quarter of the way.
    let animated = context.animation_start(Linear, 15, 10, 20);
    assert_eq!(animated.animation, Some((Matrix::identity(), fx(0.25))));
    assert_eq!(animated.matrix(), Matrix::identity());
    let moved = animated.rescale(fx(0.5), fx(0.5), &Alignment::right());
    assert_eq!(moved.matrix, mat(0.5, 0.0, 0.0, 0.5, 0.5, 0.0));
    assert_eq!(moved.animation, Some((Matrix::identity(), fx(0.25))));
    assert_eq!(moved.matrix(), mat(0.875, 0.0, 0.0, 0.875, 0.125, 0.0));
    // The hit test goes by the blended matrix: from -0.75 to 1 horizontally.
    assert!(moved.is_cursor_hovering());
    let stopped = moved.animation_stop();
    assert_eq!(stopped.animation, None);
    assert_eq!(stopped.matrix, mat(0.875, 0.0, 0.0, 0.875, 0.125, 0.0));
    assert_eq!(stopped.matrix(), mat(0.875, 0.0, 0.0, 0.875, 0.125, 0.0));
    assert_eq!(stopped.width, moved.width);
    assert_eq!(stopped.cursor, moved.cursor);
}

#[test]
fn animation_before_its_start_and_after_its_end() {
    let context = root(100.0, 100.0);
    let target = mat(0.5, 0.0, 0.0, 0.5, -0.5, 0.5);
    let before = context.animation_start(Linear, 5, 10, 20).rescale(
        fx(0.5),
        fx(0.5),
        &Alignment::top_left(),
    );
    assert_eq!(before.matrix(), Matrix::identity());
    let after = context.animation_start(Linear, 50, 10, 20).rescale(
        fx(0.5),
        fx(0.5),
        &Alignment::top_left(),
    );
    assert_eq!(after.matrix(), target);
    let reversed = context.animation_start(Reversed::new(Linear), 50, 10, 20).rescale(
        fx(0.5),
        fx(0.5),
        &Alignment::top_left(),
    );
    assert_eq!(reversed.matrix(), Matrix::identity());
}

#[test]
fn a_second_animation_starts_from_the_blended_matrix() {
    let context = root(100.0, 100.0);
    let first = context.animation_start(Linear, 20, 10, 20).rescale(
        fx(0.5),
        fx(0.5),
        &Alignment::center(),
    );
    assert_eq!(first.matrix(), mat(0.75, 0.0, 0.0, 0.75, 0.0, 0.0));
    let second = first.animation_start(Linear, 10, 10, 20);
    assert_eq!(second.animation, Some((mat(0.75, 0.0, 0.0, 0.75, 0.0, 0.0), fx(0.0))));
    assert_eq!(second.matrix, mat(0.5, 0.0, 0.0, 0.5, 0.0, 0.0));
    assert_eq!(second.matrix(), mat(0.75, 0.0, 0.0, 0.75, 0.0, 0.0));
}

#[test]
fn widget_ids_count_up_from_one() {
    let mut shared = draw();
    let context = shared.draw(fx(1.0), fx(1.0), None, false, false);
    let inner = context.margin(fx(0.25), fx(0.25), fx(0.25), fx(0.25));
    let a = context.reserve_widget_id(&mut shared);
    let b = inner.reserve_widget_id(&mut shared);
    let c = context.reserve_widget_id(&mut shared);
    assert_eq!(a, WidgetId::from(1));
    assert_eq!(b, WidgetId::from(2));
    assert_eq!(c, WidgetId::from(3));
    assert!(a != b && b != c && a != c);
    // The next frame counts from one again.
    let mut next_frame = draw();
    let context = next_frame.draw(fx(1.0), fx(1.0), None, false, false);
    assert_eq!(context.reserve_widget_id(&mut next_frame), a);
}

#[test]
fn the_hover_flag_sticks() {
    let mut shared = draw();
    let context = shared.draw(fx(1.0), fx(1.0), None, false, false);
    let inner = context.margin(fx(0.25), fx(0.25), fx(0.25), fx(0.25));
    assert!(!shared.cursor_hovered_widget());
    assert!(!context.cursor_hovered_widget(&shared));
    let _ = context.reserve_widget_id(&mut shared);
    assert!(!shared.cursor_hovered_widget());
    inner.set_cursor_hovered_widget(&mut shared);
    assert!(shared.cursor_hovered_widget());
    assert!(context.cursor_hovered_widget(&shared));
    assert!(inner.cursor_hovered_widget(&shared));
    let _ = context.reserve_widget_id(&mut shared);
    context.set_cursor_hovered_widget(&mut shared);
    assert!(shared.cursor_hovered_widget());
    assert_eq!(context.reserve_widget_id(&mut shared), WidgetId::from(3));
}

#[test]
fn an_area_without_extent_is_under_every_cursor() {
    // All four corners are in one place, and no point is on the outer side of an edge
    // without a length.
    let gone = root_with_cursor(0.75, -0.25).rescale(fx(0.0), fx(0.0), &Alignment::center());
    assert!(gone.is_cursor_hovering());
    assert_eq!(gone.cursor_hover_coordinates(), None);
}

#[test]
fn an_animation_that_eases_out() {
    let context = root(100.0, 100.0);
    let animated = context
        .animation_start(immi::animations::EaseOut::default(), 10_000, 0, 1000)
        .rescale(fx(0.5), fx(0.5), &Alignment::center());
    // Ten cycles at a factor of ten: the animation is over.
    assert_eq!(animated.matrix(), mat(0.5, 0.0, 0.0, 0.5, 0.0, 0.0));
    let started = context
        .animation_start(immi::animations::EaseOut::default(), 0, 0, 1000)
        .rescale(fx(0.5), fx(0.5), &Alignment::center());
    assert_eq!(started.matrix(), Matrix::identity());
}

#[test]
fn widget_ids_convert_from_numbers() {
    let id: WidgetId = 7usize.into();
    assert_eq!(id, WidgetId(7));
    assert_eq!(WidgetId::from(7), id);
    assert!(WidgetId::from(7) != WidgetId::from(8));
}

#[test]
fn chunks_meet_within_three_units_on_many_splits() {
    let mut state: u64 = 7;
    let mut next = move || {
        state = state.wrapping_mul(6364136223846793005).wrapping_add(1442695040888963407);
        // Between one and about 17.
        Fixed::from_bits((1i64 << 32) + (state >> 28) as i64)
    };
    let context = root(1000.0, 1000.0);
    for round in 0..200 {
        let weights: Vec<Fixed> = (0..(2 + round % 7)).map(|_| next()).collect();
        for vertical in [false, true].iter() {
            let mut splits = if *vertical {
                context.vertical_split_weights(weights.clone())
            } else {
                context.horizontal_split_weights(weights.clone())
            };
            // The edges of a chunk along the axis of the split, from the near to the far one.
            let edges = |chunk: &DrawContext| {
                if *vertical {
                    (
                        -(chunk.matrix.m21.bits + chunk.matrix.m11.bits),
                        -(chunk.matrix.m21.bits - chunk.matrix.m11.bits),
                    )
                } else {
                    (
                        chunk.matrix.m20.bits - chunk.matrix.m00.bits,
                        chunk.matrix.m20.bits + chunk.matrix.m00.bits,
                    )
                }
            };
            let first = splits.next().unwrap();
            assert!((edges(&first).0 + (1i64 << 32)).abs() <= 2);
            let mut end = edges(&first).1;
            let mut last = first;
            while let Some(chunk) = splits.next() {
                let (start, far) = edges(&chunk);
                assert!(end - start >= -3 && end - start <= 1);
                end = far;
                last = chunk;
            }
            let total: i64 = weights.iter().map(|w| w.bits >> 32).sum();
            assert!(edges(&last).1 <= 1i64 << 32);
            assert!(edges(&last).1 >= (1i64 << 32) - 5 - 2 * (total + weights.len() as i64));
        }
    }
}
