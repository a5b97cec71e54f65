//! Rectangles and the layout of a jacket: where the artwork, the frame and
//! the two border outlines go, all derived from the width of the artwork.

use vstd::prelude::*;
use crate::error::ImageError;

verus! {

/// Largest coordinate magnitude at which outlines are placed exactly: the
/// rasteriser carries coordinates in single precision, which holds every
/// integer up to 2^24.
pub const MAX_COORD: i32 = 16_777_216;

/// Largest artwork side for which the doubled canvas stays within
/// `MAX_COORD`.
pub const MAX_ARTWORK_SIDE: u32 = 8_388_608;

/// Whether `(x, y)` lies on the one-pixel outline of the rectangle with the
/// given top-left corner and size. A rectangle without area has no outline.
pub open spec fn outline_at(left: int, top: int, width: int, height: int, x: int, y: int) -> bool {
    left <= x < left + width && top <= y < top + height && (x == left || x == left + width - 1
        || y == top || y == top + height - 1)
}

/// An axis-aligned rectangle: top-left corner and size.
#[derive(Clone, Copy, Debug, PartialEq, Eq, Structural)]
pub struct Rectangle {
    pub left: i32,
    pub top: i32,
    pub width: u32,
    pub height: u32,
}

impl Rectangle {
    /// Whether every coordinate the rectangle reaches is one at which
    /// outlines are placed exactly.
    pub open spec fn drawable(self) -> bool {
        -MAX_COORD <= self.left && -MAX_COORD <= self.top && self.left + self.width <= MAX_COORD
            && self.top + self.height <= MAX_COORD
    }

    /// Whether `(x, y)` lies inside the rectangle, edges included.
    pub open spec fn covers(self, x: int, y: int) -> bool {
        self.left <= x < self.left + self.width && self.top <= y < self.top + self.height
    }

    /// Distance from `(x, y)` to the nearest edge of the rectangle, zero on
    /// the edge itself. Meaningful for points the rectangle covers.
    pub open spec fn edge_distance(self, x: int, y: int) -> int {
        let dx = if x - self.left <= self.left + self.width - 1 - x {
            x - self.left
        } else {
            self.left + self.width - 1 - x
        };
        let dy = if y - self.top <= self.top + self.height - 1 - y {
            y - self.top
        } else {
            self.top + self.height - 1 - y
        };
        if dx <= dy {
            dx
        } else {
            dy
        }
    }

    /// Whether `(x, y)` lies on the one-pixel outline of the rectangle.
    pub open spec fn on_outline(self, x: int, y: int) -> bool {
        outline_at(self.left as int, self.top as int, self.width as int, self.height as int, x, y)
    }

    /// Whether `(x, y)` lies on the outline of the rectangle shrunk by `i`
    /// pixels on every side.
    pub open spec fn on_ring(self, i: int, x: int, y: int) -> bool {
        outline_at(self.left + i, self.top + i, self.width - 2 * i, self.height - 2 * i, x, y)
    }

    /// Whether `(x, y)` lies on the stroke of the given thickness drawn
    /// inwards from the edge of the rectangle.
    pub open spec fn on_stroke(self, thickness: int, x: int, y: int) -> bool {
        self.covers(x, y) && self.edge_distance(x, y) < thickness
    }

    /// Tells whether the rectangle is `drawable`.
    pub fn is_drawable(&self) -> (ok: bool)
        ensures
            ok == self.drawable(),
    {
        -MAX_COORD <= self.left && -MAX_COORD <= self.top && self.left as i64 + self.width as i64
            <= MAX_COORD as i64 && self.top as i64 + self.height as i64 <= MAX_COORD as i64
    }
}

/// A point the rectangle covers lies on exactly one ring: the one whose inset
/// is its distance to the nearest edge.
pub proof fn lemma_ring_is_edge_distance(rect: Rectangle, i: int, x: int, y: int)
    requires
        0 <= i,
    ensures
        rect.on_ring(i, x, y) <==> rect.covers(x, y) && rect.edge_distance(x, y) == i,
{
}

/// A stroke is the union of its rings: the concentric outlines inset by
/// `0, 1, .., thickness - 1` pixels.
pub proof fn lemma_stroke_is_union_of_rings(rect: Rectangle, thickness: int, x: int, y: int)
    ensures
        rect.on_stroke(thickness, x, y) <==> exists|i: int|
            0 <= i < thickness && #[trigger] rect.on_ring(i, x, y),
{
    if rect.on_stroke(thickness, x, y) {
        let d = rect.edge_distance(x, y);
        lemma_ring_is_edge_distance(rect, d, x, y);
        assert(0 <= d < thickness && rect.on_ring(d, x, y));
    }
    if exists|i: int| 0 <= i < thickness && #[trigger] rect.on_ring(i, x, y) {
        let i = choose|i: int| 0 <= i < thickness && #[trigger] rect.on_ring(i, x, y);
        lemma_ring_is_edge_distance(rect, i, x, y);
    }
}

/// Half the artwork width: the offset at which the artwork is pasted.
pub open spec fn half_of(w: int) -> int {
    w / 2
}

/// Offset of the frame: `0.375 w`, truncated.
pub open spec fn frame_offset_of(w: int) -> int {
    (3 * w) / 8
}

/// Side of the resized frame: `1.25 w`, rounded to the nearest integer with
/// halves going up.
pub open spec fn frame_side_of(w: int) -> int {
    (5 * w + 2) / 4
}

/// Stroke thickness: one more than the truncated hundredth of
/// `half_of(w) - 50`, and never less than one.
pub open spec fn stroke_of(w: int) -> int {
    let s = (half_of(w) - 50) / 100 + 1;
    if s < 1 {
        1
    } else {
        s
    }
}

/// Corner of the inner outline: `0.46 w`, truncated.
pub open spec fn inner_origin_of(w: int) -> int {
    (46 * w) / 100
}

/// Side of the inner outline: `1.08 w`, truncated.
pub open spec fn inner_side_of(w: int) -> int {
    (108 * w) / 100
}

/// Gap between the inner and the outer outline: a twenty-first of
/// `half_of(w)`, truncated.
pub open spec fn gap_of(w: int) -> int {
    half_of(w) / 21
}

/// Whether a jacket can be laid out around artwork of width `w`.
pub open spec fn supported_width(w: int) -> bool {
    1 <= w <= MAX_ARTWORK_SIDE
}

/// Where everything goes on the canvas, for one artwork width.
#[derive(Clone, Copy, Debug, PartialEq, Eq, Structural)]
pub struct Layout {
    /// Offset of the artwork on both axes.
    pub half: u32,
    /// Offset of the frame on both axes.
    pub frame_offset: u32,
    /// Side of the frame once resized.
    pub frame_side: u32,
    /// Thickness of both outlines.
    pub stroke: u32,
    /// Distance between the two outlines.
    pub gap: u32,
    /// The inner outline.
    pub inner: Rectangle,
    /// The outer outline, `gap` pixels further out on every side.
    pub outer: Rectangle,
}

impl Layout {
    /// Whether this is the layout for artwork of width `w`.
    pub open spec fn matches(self, w: int) -> bool {
        &&& self.half == half_of(w)
        &&& self.frame_offset == frame_offset_of(w)
        &&& self.frame_side == frame_side_of(w)
        &&& self.stroke == stroke_of(w)
        &&& self.gap == gap_of(w)
        &&& self.inner.left == inner_origin_of(w)
        &&& self.inner.top == inner_origin_of(w)
        &&& self.inner.width == inner_side_of(w)
        &&& self.inner.height == inner_side_of(w)
        &&& self.outer.left == inner_origin_of(w) - gap_of(w)
        &&& self.outer.top == inner_origin_of(w) - gap_of(w)
        &&& self.outer.width == inner_side_of(w) + 2 * gap_of(w)
        &&& self.outer.height == inner_side_of(w) + 2 * gap_of(w)
    }
}

/// For a supported width both outlines have area, can be drawn exactly, and
/// lie on the square canvas of twice the width, the outer one around the
/// inner one.
pub proof fn lemma_layout_fits(layout: Layout, w: int)
    requires
        supported_width(w),
        layout.matches(w),
    ensures
        layout.stroke >= 1,
        layout.inner.width >= 1,
        layout.inner.drawable(),
        layout.outer.drawable(),
        0 <= layout.outer.left <= layout.inner.left,
        layout.inner.left + layout.inner.width <= layout.outer.left + layout.outer.width <= 2 * w,
        layout.frame_offset + layout.frame_side <= 2 * w,
        layout.half + w <= 2 * w,
{
}

/// The layout for artwork of the given width, or `InvalidDimensions` for a
/// width of zero or above `MAX_ARTWORK_SIDE`.
pub fn border_layout(width: u32) -> (res: Result<Layout, ImageError>)
    ensures
        match res {
            Ok(layout) => supported_width(width as int) && layout.matches(width as int),
            Err(e) => !supported_width(width as int) && e == ImageError::InvalidDimensions,
        },
{
    if width == 0 || width > MAX_ARTWORK_SIDE {
        return Err(ImageError::InvalidDimensions);
    }
    let half: u32 = width / 2;
    let stroke: u32 = if half >= 50 {
        (half - 50) / 100 + 1
    } else {
        1
    };
    let gap: u32 = half / 21;
    let origin: u32 = (46 * width) / 100;
    let side: u32 = (108 * width) / 100;
    let inner = Rectangle { left: origin as i32, top: origin as i32, width: side, height: side };
    let outer = Rectangle {
        left: (origin - gap) as i32,
        top: (origin - gap) as i32,
        width: side + 2 * gap,
        height: side + 2 * gap,
    };
    Ok(
        Layout {
            half,
            frame_offset: (3 * width) / 8,
            frame_side: (5 * width + 2) / 4,
            stroke,
            gap,
            inner,
            outer,
        },
    )
}

} // verus!
