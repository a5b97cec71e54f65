//! Thick outlines, drawn as concentric one-pixel outlines.

use vstd::prelude::*;
use crate::color::Color;
use crate::geometry::Rectangle;
use crate::raster::{lemma_pixels_determine_raster, raster, Canvas, Raster, buffer_draw_outline};

verus! {

/// Whether `after` is `before` with the stroke of the given thickness along
/// the inside of `rect` painted in `color`, and nothing else changed: no
/// other pixel, and no sample beyond the last pixel.
pub open spec fn stroked(
    before: Raster,
    after: Raster,
    rect: Rectangle,
    color: Color,
    thickness: int,
) -> bool {
    &&& after.same_size(before)
    &&& after.same_spare(before)
    &&& forall|x: int, y: int|
        before.contains(x, y) ==> #[trigger] after.pixel(x, y) == if rect.on_stroke(
            thickness,
            x,
            y,
        ) {
            color
        } else {
            before.pixel(x, y)
        }
}

/// A stroke without thickness, or along a rectangle without area, leaves the
/// image as it was, sample for sample.
pub proof fn lemma_empty_stroke(
    before: Raster,
    after: Raster,
    rect: Rectangle,
    color: Color,
    thickness: int,
)
    requires
        stroked(before, after, rect, color, thickness),
        thickness <= 0 || rect.width == 0 || rect.height == 0,
    ensures
        after == before,
{
    assert forall|x: int, y: int| after.contains(x, y) implies #[trigger] after.pixel(x, y)
        == before.pixel(x, y) by {
        assert(before.contains(x, y));
    }
    lemma_pixels_determine_raster(after, before);
}

/// What a stroke paints depends on the image, the rectangle, the colour and
/// the thickness alone.
pub proof fn lemma_stroke_is_determined(
    before: Raster,
    first: Raster,
    second: Raster,
    rect: Rectangle,
    color: Color,
    thickness: int,
)
    requires
        stroked(before, first, rect, color, thickness),
        stroked(before, second, rect, color, thickness),
    ensures
        first == second,
{
    assert forall|x: int, y: int| first.contains(x, y) implies #[trigger] first.pixel(x, y)
        == second.pixel(x, y) by {
        assert(before.contains(x, y));
        assert(second.pixel(x, y) == if rect.on_stroke(thickness, x, y) {
            color
        } else {
            before.pixel(x, y)
        });
    }
    lemma_pixels_determine_raster(first, second);
}

/// Draws the outline of `rect` on `img`, `thickness` pixels thick, growing
/// inwards: one hollow rectangle per pixel of thickness, each inset by one
/// pixel more than the last, until the thickness is reached or nothing is
/// left of the rectangle. Corners are square, the colour replaces what was
/// there, and whatever falls outside the image is not drawn.
pub fn draw_thick_border(img: &mut Canvas, rect: Rectangle, color: Color, thickness: u32)
    requires
        rect.drawable(),
        raster(*old(img)).paintable(),
    ensures
        stroked(raster(*old(img)), raster(*final(img)), rect, color, thickness as int),
{
    let ghost before = raster(*img);
    let mut i: u32 = 0;
    while i < thickness && 2 * (i as u64) < rect.width as u64 && 2 * (i as u64)
        < rect.height as u64
        invariant
            rect.drawable(),
            before.paintable(),
            i <= thickness,
            stroked(before, raster(*img), rect, color, i as int),
        ensures
            stroked(before, raster(*img), rect, color, thickness as int),
        decreases thickness - i,
    {
        let ghost current = raster(*img);
        let ring = Rectangle {
            left: rect.left + i as i32,
            top: rect.top + i as i32,
            width: rect.width - 2 * i,
            height: rect.height - 2 * i,
        };
        buffer_draw_outline(img, ring, color);
        proof {
            let next = raster(*img);
            assert forall|x: int, y: int| before.contains(x, y) implies #[trigger] next.pixel(
                x,
                y,
            ) == if rect.on_stroke(i + 1, x, y) {
                color
            } else {
                before.pixel(x, y)
            } by {
                assert(current.contains(x, y));
                assert(ring.on_outline(x, y) <==> rect.on_ring(i as int, x, y));
                assert(current.pixel(x, y) == if rect.on_stroke(i as int, x, y) {
                    color
                } else {
                    before.pixel(x, y)
                });
            }
        }
        i = i + 1;
    }
}

} // verus!
